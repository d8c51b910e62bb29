use loopy_gen_plan::files::{FileContent, PlanFiles, PlanRootKind};
use loopy_gen_plan::runtime::comments::{
    collect_plan_markdown_files, discover_plan_comments, parse_comment_blocks, CommentBlock,
    CommentBlockParseError, CommentDiscoveryError,
};

fn load(files: &mut PlanFiles, path: &str, text: &str) {
    files.load(
        path.to_owned(),
        FileContent::Text {
            text: text.to_owned(),
        },
    );
}

#[test]
fn literal_comment_parser_extracts_valid_blocks_and_rejects_malformed_markers() {
    let blocks = parse_comment_blocks("a\n BEGIN_COMMENT \nhello\nworld\n END_COMMENT \nz")
        .expect("valid block");
    assert_eq!(
        blocks,
        vec![CommentBlock {
            start_line: 2,
            end_line: 5,
            text: "hello\nworld".to_owned(),
        }]
    );

    assert!(matches!(
        parse_comment_blocks("BEGIN_COMMENT\nBEGIN_COMMENT\nEND_COMMENT"),
        Err(CommentBlockParseError::NestedBegin {
            line: 2,
            open_start_line: 1
        })
    ));
    assert!(matches!(
        parse_comment_blocks("END_COMMENT"),
        Err(CommentBlockParseError::OrphanEnd { line: 1 })
    ));
    assert!(matches!(
        parse_comment_blocks("BEGIN_COMMENT\nstill open"),
        Err(CommentBlockParseError::UnclosedBegin { start_line: 1 })
    ));
}

#[test]
fn comment_text_keeps_blank_lines_and_drops_carriage_returns() {
    let blocks =
        parse_comment_blocks("BEGIN_COMMENT\r\none\r\n\r\ntwo\r\nEND_COMMENT\r\n").expect("valid");
    assert_eq!(blocks.len(), 1);
    assert_eq!(blocks[0].text, "one\n\ntwo");
}

#[test]
fn markers_inside_a_line_do_not_count() {
    assert_eq!(
        parse_comment_blocks("see BEGIN_COMMENT\nEND_COMMENTS\n"),
        Ok(Vec::new())
    );
}

#[test]
fn comments_are_collected_file_by_file() {
    let mut files = PlanFiles::new(PlanRootKind::Directory);
    load(&mut files, "b.md", "BEGIN_COMMENT\nlater\nEND_COMMENT\n");
    load(&mut files, "a/a.md", "x\nBEGIN_COMMENT\nfirst\nEND_COMMENT\n");
    load(&mut files, "demo_draft.md", "BEGIN_COMMENT\ndraft\n");
    load(&mut files, "notes.txt", "BEGIN_COMMENT\n");
    assert_eq!(
        collect_plan_markdown_files("/plans/demo", &files, "demo").unwrap(),
        vec!["a/a.md".to_owned(), "b.md".to_owned()]
    );
    let comments = discover_plan_comments("/plans/demo", &files, "demo").unwrap();
    assert_eq!(comments.len(), 2);
    assert_eq!(comments[0].relative_path, "a/a.md");
    assert_eq!(comments[0].start_line, 2);
    assert_eq!(comments[0].end_line, 4);
    assert_eq!(comments[0].text, "first");
    assert_eq!(comments[1].relative_path, "b.md");
}

#[test]
fn malformed_markers_stop_the_discovery() {
    let mut files = PlanFiles::new(PlanRootKind::Directory);
    load(&mut files, "a.md", "END_COMMENT\n");
    match discover_plan_comments("/plans/demo", &files, "demo") {
        Err(CommentDiscoveryError::MalformedStructure {
            relative_path,
            line,
            kind,
            ..
        }) => {
            assert_eq!(relative_path, "a.md");
            assert_eq!(line, 1);
            assert_eq!(kind, "orphan_end_comment");
        }
        other => panic!("unexpected {other:?}"),
    }
}

#[test]
fn missing_plan_root_stops_the_discovery() {
    let files = PlanFiles::new(PlanRootKind::Missing);
    assert!(matches!(
        discover_plan_comments("/plans/demo", &files, "demo"),
        Err(CommentDiscoveryError::InvalidPlanRoot { .. })
    ));
}

#[test]
fn unreadable_files_stop_the_discovery() {
    let mut files = PlanFiles::new(PlanRootKind::Directory);
    files.load(
        "a.md".to_owned(),
        FileContent::Unreadable {
            source: "permission denied".to_owned(),
        },
    );
    match discover_plan_comments("/plans/demo", &files, "demo") {
        Err(CommentDiscoveryError::Io {
            relative_path,
            source,
        }) => {
            assert_eq!(relative_path, "a.md");
            assert_eq!(source, "permission denied");
        }
        other => panic!("unexpected {other:?}"),
    }
}
