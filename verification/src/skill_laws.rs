//! What the parts of a skill are called, and what the file of a role is made of.
use crate::refine::target_laws::reasons_hold_words;
use crate::runtime::review_laws::holds_words;
use crate::skill::{
    identifier, is_safe_identifier, prompt_file, role_file, role_sections, task_type_file,
    ManifestModel, SkillFilesModel,
};
use crate::text::{occurs_at, trimmed};
use crate::text_laws::texts_are_cut_at_the_first_occurrence;
use vstd::prelude::*;

verus! {

/// The character is a small letter of ASCII.
pub open spec fn is_small_letter(c: char) -> bool {
    'a' <= c && c <= 'z'
}

/// The character is a digit.
pub open spec fn is_digit(c: char) -> bool {
    '0' <= c && c <= '9'
}

/// The text is an identifier: small letters and digits, a letter first, with single
/// separators between them.
pub open spec fn is_well_named(s: Seq<char>, a: char, b: char) -> bool {
    &&& s.len() > 0
    &&& is_small_letter(s[0])
    &&& forall|i: int|
        0 <= i < s.len() ==> is_small_letter(#[trigger] s[i]) || is_digit(s[i]) || s[i] == a
            || s[i] == b
    &&& s.last() != a && s.last() != b
    &&& forall|i: int, j: int|
        0 <= i && j == i + 1 && j < s.len() ==> !((#[trigger] s[i] == a || s[i] == b) && (
        #[trigger] s[j] == a || s[j] == b))
}

/// A name is taken without the white space around it, and exactly where it is an
/// identifier.
pub proof fn names_are_identifiers(field: Seq<char>, value: Seq<char>, a: char, b: char)
    ensures
        identifier(field, value, a, b) is Ok <==> is_well_named(trimmed(value), a, b),
        identifier(field, value, a, b) matches Ok(name) ==> name == trimmed(value),
{
    let s = trimmed(value);
    if is_safe_identifier(s, a, b) {
        assert forall|i: int| 0 <= i < s.len() implies is_small_letter(#[trigger] s[i])
            || is_digit(s[i]) || s[i] == a || s[i] == b by {}
        assert forall|i: int, j: int| 0 <= i && j == i + 1 && j < s.len() implies !((
        #[trigger] s[i] == a || s[i] == b) && (#[trigger] s[j] == a || s[j] == b)) by {
            assert(s[j - 1] == s[i]);
        }
    }
    if is_well_named(s, a, b) {
        assert forall|i: int|
            0 < i < s.len() && (s[i - 1] == a || s[i - 1] == b) implies (#[trigger] s[i]) != a
            && s[i] != b by {
            let h = i - 1;
            assert(!((s[h] == a || s[h] == b) && (s[i] == a || s[i] == b)));
        }
    }
}

/// The files of a skill stand where their kind says: a type of task and its roles in
/// its directory, prompts in theirs.
pub proof fn skill_files_stand_in_their_directories(
    task_type: Seq<char>,
    role_kind: Seq<char>,
    role_id: Seq<char>,
    name: Seq<char>,
)
    ensures
        task_type_file(task_type) == "roles/"@ + task_type + "/task-type.toml"@,
        prompt_file(name) == "prompts/"@ + name + ".md"@,
        role_file(task_type, role_kind, role_id) is Ok <==> {
            &&& role_kind == "leaf_reviewer"@ || role_kind == "frontier_reviewer"@
            &&& is_well_named(trimmed(role_id), '_', '-')
            &&& is_well_named(trimmed(task_type), '-', '-')
        },
        role_file(task_type, role_kind, role_id) matches Ok(file) ==> file == "roles/"@ + trimmed(
            task_type,
        ) + "/"@ + role_kind + "/"@ + trimmed(role_id) + ".md"@,
{
    names_are_identifiers("role_id"@, role_id, '_', '-');
    names_are_identifiers("task_type"@, task_type, '-', '-');
}

/// The file of a role is its front matter between two lines of dashes, and its body
/// behind them; nothing but white space stands before.
pub proof fn roles_are_front_matter_and_body(markdown: Seq<char>)
    ensures
        role_sections(markdown) matches Ok((front_matter, body)) ==> exists|before: Seq<char>|
            #![trigger before + "---"@ + front_matter + "---"@ + body]
            markdown == before + "---"@ + front_matter + "---"@ + body && !holds_words(
                Some(before),
            ) && (forall|j: int| 0 <= j < before.len() ==> !occurs_at(markdown, "---"@, j)) && (
            forall|j: int|
                0 <= j < front_matter.len() ==> !occurs_at(
                    front_matter + "---"@ + body,
                    "---"@,
                    j,
                )),
{
    if let Ok((front_matter, body)) = role_sections(markdown) {
        texts_are_cut_at_the_first_occurrence(markdown, "---"@);
        let (before, rest) = crate::text::cut_at(markdown, "---"@)->0;
        texts_are_cut_at_the_first_occurrence(rest, "---"@);
        reasons_hold_words(before);
        assert(rest == front_matter + "---"@ + body);
        assert(markdown =~= before + "---"@ + front_matter + "---"@ + body);
    }
}

/// The judges of a task type are those that its file names, each with a role of its
/// own kind and an executor of the manifest; and its file says that it is that type.
pub proof fn judges_are_those_that_the_type_names(
    skill: SkillFilesModel,
    manifest: ManifestModel,
    task_type: Seq<char>,
)
    ensures
        skill.gate_roles(manifest, task_type) matches Ok(roles) ==> {
            &&& roles.task_type == trimmed(task_type)
            &&& is_well_named(roles.task_type, '-', '-')
            &&& skill.task_type_config(roles.task_type) matches Ok(config)
                && roles.leaf_reviewer_role_id == trimmed(config.default_leaf_reviewer)
                && roles.frontier_reviewer_role_id == trimmed(config.default_frontier_reviewer)
                && trimmed(config.task_type) == trimmed(roles.task_type) && is_well_named(
                trimmed(config.task_type),
                '-',
                '-',
            )
            &&& is_well_named(roles.leaf_reviewer_role_id, '_', '-')
            &&& is_well_named(roles.frontier_reviewer_role_id, '_', '-')
        },
{
    if let Ok(roles) = skill.gate_roles(manifest, task_type) {
        names_are_identifiers("task_type"@, task_type, '-', '-');
        let config = skill.task_type_config(roles.task_type)->Ok_0;
        names_are_identifiers("task_type"@, roles.task_type, '-', '-');
        names_are_identifiers("task_type"@, config.task_type, '-', '-');
        names_are_identifiers(
            "default_leaf_reviewer"@,
            config.default_leaf_reviewer,
            '_',
            '-',
        );
        names_are_identifiers(
            "default_frontier_reviewer"@,
            config.default_frontier_reviewer,
            '_',
            '-',
        );
    }
}

} // verus!
