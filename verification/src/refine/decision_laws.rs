//! What comments come to: which words ask for which change, and what of the
//! plan the confirmed actions touch.
use super::decision::{
    RefineCommentSourceModel, RefineDecisionChangeType, RefineDecisionModel, RefineDecisionStatus,
    RefineRewriteActionKind, RefineRewriteActionModel,
};
use super::impact::{
    impact_of, mapping_issues_from, RefineImpactAnalysisRequestModel, RefineImpactCategory,
    RefineImpactMappingIssueModel,
};
use super::scope::{
    RefineLinkChangeModel, RefineNodeCreationModel, RefineNodeRemovalModel,
    RefineRewriteScopeError, RefineRewriteScopeModel, RefineRewriteTargetModel,
};
use crate::text::{ascii_lowered, has_text, occurs_at};
use vstd::prelude::*;

verus! {

// ---------------------------------------------------------------------
// Comments
// ---------------------------------------------------------------------
/// The character is an upper-case letter and `low` the same letter in lower
/// case, or the two are one other character.
pub open spec fn is_lower_of(low: char, c: char) -> bool {
    if 'A' <= c && c <= 'Z' {
        low as int == c as int + 32
    } else {
        low == c
    }
}

/// The words stand in the text at position `at`, in letters of either case.
pub open spec fn words_stand_at(text: Seq<char>, words: Seq<char>, at: int) -> bool {
    &&& 0 <= at
    &&& at + words.len() <= text.len()
    &&& forall|k: int| 0 <= k < words.len() ==> is_lower_of(#[trigger] words[k], text[at + k])
}

/// The comment holds the words, which are in lower case, in letters of either
/// case.
pub open spec fn says(comment: RefineCommentSourceModel, words: Seq<char>) -> bool {
    comment.comment_text matches Some(text) && exists|at: int|
        #[trigger] words_stand_at(text, words, at)
}

/// The comment asks for a new node.
pub open spec fn asks_for_node(comment: RefineCommentSourceModel) -> bool {
    says(comment, "new node"@) || says(comment, "add node"@)
}

/// The comment asks that a node be removed.
pub open spec fn asks_for_removal(comment: RefineCommentSourceModel) -> bool {
    says(comment, "remove node"@) || says(comment, "delete node"@)
}

/// The comment is about children or links.
pub open spec fn speaks_of_links(comment: RefineCommentSourceModel) -> bool {
    says(comment, "child"@) || says(comment, "link"@)
}

/// The comment is about a parent or its contract.
pub open spec fn speaks_of_contract(comment: RefineCommentSourceModel) -> bool {
    says(comment, "parent"@) || says(comment, "contract"@)
}

/// The comment leaves the choice to the user.
pub open spec fn asks_for_user(comment: RefineCommentSourceModel) -> bool {
    says(comment, "ask user"@) || says(comment, "user decides"@)
}

proof fn lowered_text_says(text: Seq<char>, words: Seq<char>)
    ensures
        has_text(ascii_lowered(text), words) <==> exists|at: int|
            #[trigger] words_stand_at(text, words, at),
{
    let low = ascii_lowered(text);
    assert forall|at: int| occurs_at(low, words, at) <==> #[trigger] words_stand_at(
        text,
        words,
        at,
    ) by {
        if occurs_at(low, words, at) {
            assert forall|k: int| 0 <= k < words.len() implies is_lower_of(
                #[trigger] words[k],
                text[at + k],
            ) by {
                assert(low.subrange(at, at + words.len() as int)[k] == low[at + k]);
            }
        }
        if words_stand_at(text, words, at) {
            assert(low.subrange(at, at + words.len() as int) =~= words) by {
                assert forall|k: int| 0 <= k < words.len() implies low[at + k] == words[k] by {
                    assert(is_lower_of(words[k], text[at + k]));
                }
            }
        }
    }
    if has_text(low, words) {
        let at = choose|at: int| occurs_at(low, words, at);
        assert(words_stand_at(text, words, at));
    }
    if exists|at: int| #[trigger] words_stand_at(text, words, at) {
        let at = choose|at: int| #[trigger] words_stand_at(text, words, at);
        assert(occurs_at(low, words, at));
    }
}

proof fn words_are_found(comment: RefineCommentSourceModel, words: Seq<char>)
    requires
        words.len() > 0,
    ensures
        has_text(
            ascii_lowered(
                match comment.comment_text {
                    Some(text) => text,
                    None => Seq::empty(),
                },
            ),
            words,
        ) <==> says(comment, words),
{
    match comment.comment_text {
        Some(text) => {
            lowered_text_says(text, words);
        },
        None => {
            let low = ascii_lowered(Seq::empty());
            assert(low.len() == 0);
            assert forall|at: int| !occurs_at(low, words, at) by {}
        },
    }
}

/// The decision asks for this one change and names its category.
pub open spec fn asks_for(
    decision: RefineDecisionModel,
    change: RefineDecisionChangeType,
    category: Seq<char>,
) -> bool {
    &&& decision.change_types == seq![change]
    &&& decision.confirmation.rationale == "mapped natural-language comment to "@ + category
}

/// The words of a comment decide what is asked for. The words for a new node
/// come first, then those for a removal, for children and links, for parents and
/// contracts, and for the user; a comment without any of them asks for new text.
pub proof fn words_decide_the_change(request: RefineImpactAnalysisRequestModel, k: int)
    requires
        0 <= k < request.comments.len(),
    ensures
        ({
            let comment = request.comments[k];
            let decision = impact_of(request).decisions[k];
            if asks_for_node(comment) {
                asks_for(decision, RefineDecisionChangeType::NodeCreation, "NewNodeRequest"@)
            } else if asks_for_removal(comment) {
                asks_for(decision, RefineDecisionChangeType::NodeRemoval, "NodeRemovalRequest"@)
            } else if speaks_of_links(comment) {
                asks_for(decision, RefineDecisionChangeType::LinkChange, "ChildSetChange"@)
            } else if speaks_of_contract(comment) {
                asks_for(
                    decision,
                    RefineDecisionChangeType::ParentContractChange,
                    "ParentContractChange"@,
                )
            } else if asks_for_user(comment) {
                asks_for(
                    decision,
                    RefineDecisionChangeType::ContextInvalidation,
                    "UserOwnedDecision"@,
                )
            } else {
                asks_for(
                    decision,
                    RefineDecisionChangeType::InPlaceTextUpdate,
                    "NodeContentChange"@,
                )
            }
        }),
{
    let comment = request.comments[k];
    reveal_strlit("new node");
    reveal_strlit("add node");
    reveal_strlit("remove node");
    reveal_strlit("delete node");
    reveal_strlit("child");
    reveal_strlit("link");
    reveal_strlit("parent");
    reveal_strlit("contract");
    reveal_strlit("ask user");
    reveal_strlit("user decides");
    words_are_found(comment, "new node"@);
    words_are_found(comment, "add node"@);
    words_are_found(comment, "remove node"@);
    words_are_found(comment, "delete node"@);
    words_are_found(comment, "child"@);
    words_are_found(comment, "link"@);
    words_are_found(comment, "parent"@);
    words_are_found(comment, "contract"@);
    words_are_found(comment, "ask user"@);
    words_are_found(comment, "user decides"@);
}

/// A node is made only for a comment that asks for one, and a node is removed
/// only for a comment that asks for that.
pub proof fn nodes_come_and_go_as_asked(request: RefineImpactAnalysisRequestModel, k: int)
    requires
        0 <= k < request.comments.len(),
    ensures
        impact_of(request).decisions[k].change_types.contains(
            RefineDecisionChangeType::NodeCreation,
        ) <==> asks_for_node(request.comments[k]),
        impact_of(request).decisions[k].change_types.contains(
            RefineDecisionChangeType::NodeRemoval,
        ) <==> asks_for_removal(request.comments[k]) && !asks_for_node(request.comments[k]),
{
    words_decide_the_change(request, k);
    let types = impact_of(request).decisions[k].change_types;
    assert(types.len() == 1);
    assert(types.contains(types[0]));
}

/// A decision speaks of its comment and of the file that the comment stands in,
/// and of nothing else yet. Where the file is known it goes on by itself;
/// where it is not, it waits, says so and asks the user.
pub proof fn decisions_speak_of_their_comments(
    request: RefineImpactAnalysisRequestModel,
    k: int,
)
    requires
        0 <= k < request.comments.len(),
    ensures
        ({
            let decision = impact_of(request).decisions[k];
            let path = request.comments[k].source_path;
            &&& impact_of(request).decisions.len() == request.comments.len()
            &&& decision.source_comments == seq![request.comments[k]]
            &&& decision.affected_scope.affected_files == seq![path]
            &&& decision.affected_scope.affected_tracked_nodes.len() == 0
            &&& decision.affected_scope.affected_subtree_roots.len() == 0
            &&& decision.rewrite_actions.len() == 0
            &&& decision.expected_gate_revalidation.len() == 0
            &&& if request.known_node_paths.contains(path) {
                &&& decision.confirmation.status
                    == RefineDecisionStatus::AutoContinuationCandidate
                &&& decision.affected_scope.unresolved_mapping_note is None
                &&& decision.confirmation.question_for_user is None
                &&& decision.confirmation.decision_impact is None
            } else {
                &&& decision.confirmation.status
                    == RefineDecisionStatus::AwaitingManualConfirmation
                &&& decision.affected_scope.unresolved_mapping_note == Some(
                    "source comment path has no tracked node match"@,
                )
                &&& decision.confirmation.question_for_user == Some(
                    "Which tracked plan node should this refine comment modify?"@,
                )
                &&& decision.confirmation.decision_impact == Some(
                    "Rewrite scope and gate targets cannot be selected safely."@,
                )
            }
        }),
{
}

/// Those of the comments whose file is not known, in their order.
pub open spec fn unmapped_comments(
    comments: Seq<RefineCommentSourceModel>,
    known_node_paths: Seq<Seq<char>>,
) -> Seq<RefineCommentSourceModel> {
    comments.filter(
        |comment: RefineCommentSourceModel| !known_node_paths.contains(comment.source_path),
    )
}

/// The issue says that the file of this comment is not known.
pub open spec fn is_issue_of(
    issue: RefineImpactMappingIssueModel,
    comment: RefineCommentSourceModel,
) -> bool {
    &&& issue.source_path == comment.source_path
    &&& issue.category == RefineImpactCategory::AmbiguousMapping
    &&& issue.message == "comment source path is not present in the known tracked node paths"@
}

/// The issues are those of the comments, one for one.
pub open spec fn are_issues_of(
    issues: Seq<RefineImpactMappingIssueModel>,
    comments: Seq<RefineCommentSourceModel>,
) -> bool {
    issues.len() == comments.len() && forall|k: int|
        0 <= k < comments.len() ==> is_issue_of(#[trigger] issues[k], comments[k])
}

proof fn issues_are_those_of_unmapped_comments(
    request: RefineImpactAnalysisRequestModel,
    i: int,
    acc: Seq<RefineImpactMappingIssueModel>,
)
    requires
        0 <= i <= request.comments.len(),
        are_issues_of(acc, unmapped_comments(request.comments.take(i), request.known_node_paths)),
    ensures
        are_issues_of(
            mapping_issues_from(request, i, acc),
            unmapped_comments(request.comments, request.known_node_paths),
        ),
    decreases request.comments.len() - i,
{
    reveal(Seq::filter);
    let all = request.comments;
    let known = request.known_node_paths;
    if i < all.len() {
        let before = unmapped_comments(all.take(i), known);
        assert(all.take(i + 1).drop_last() =~= all.take(i));
        assert(all.take(i + 1).last() == all[i]);
        assert(unmapped_comments(all.take(i + 1), known) == if known.contains(all[i].source_path) {
            before
        } else {
            before.push(all[i])
        });
        if known.contains(all[i].source_path) {
            issues_are_those_of_unmapped_comments(request, i + 1, acc);
        } else {
            issues_are_those_of_unmapped_comments(
                request,
                i + 1,
                acc.push(
                    RefineImpactMappingIssueModel {
                        source_path: all[i].source_path,
                        category: RefineImpactCategory::AmbiguousMapping,
                        message:
                            "comment source path is not present in the known tracked node paths"@,
                    },
                ),
            );
        }
    } else {
        assert(all.take(i) =~= all);
    }
}

/// There is an issue for each comment whose file is not known, in their order,
/// and no other.
pub proof fn unmapped_comments_are_told(request: RefineImpactAnalysisRequestModel)
    ensures
        are_issues_of(
            impact_of(request).mapping_issues,
            unmapped_comments(request.comments, request.known_node_paths),
        ),
{
    reveal(Seq::filter);
    assert(request.comments.take(0) =~= Seq::empty());
    issues_are_those_of_unmapped_comments(request, 0, Seq::empty());
}

// ---------------------------------------------------------------------
// Actions
// ---------------------------------------------------------------------
/// The actions of the first `n` decisions, in their order.
pub open spec fn actions_of(decisions: Seq<RefineDecisionModel>, n: int) -> Seq<
    RefineRewriteActionModel,
>
    decreases n,
{
    if n <= 0 {
        Seq::empty()
    } else {
        actions_of(decisions, n - 1) + decisions[n - 1].rewrite_actions
    }
}

/// The targets that the actions name.
pub open spec fn targets_of(actions: Seq<RefineRewriteActionModel>) -> Seq<
    RefineRewriteTargetModel,
> {
    actions.filter(
        |action: RefineRewriteActionModel|
            action.action_kind == RefineRewriteActionKind::UpdateExistingNode || action.action_kind
                == RefineRewriteActionKind::MarkStale,
    ).map_values(
        |action: RefineRewriteActionModel|
            RefineRewriteTargetModel {
                relative_path: action.target_relative_path->0,
                node_id: None,
                action_kind: action.action_kind,
            },
    )
}

/// The nodes that the actions ask for.
pub open spec fn creations_of(actions: Seq<RefineRewriteActionModel>) -> Seq<
    RefineNodeCreationModel,
> {
    actions.filter(
        |action: RefineRewriteActionModel|
            action.action_kind == RefineRewriteActionKind::CreateNode,
    ).map_values(
        |action: RefineRewriteActionModel|
            RefineNodeCreationModel {
                relative_path: action.target_relative_path->0,
                parent_relative_path: action.parent_relative_path,
                node_kind: action.node_kind,
            },
    )
}

/// The nodes that the actions remove.
pub open spec fn removals_of(actions: Seq<RefineRewriteActionModel>) -> Seq<
    RefineNodeRemovalModel,
> {
    actions.filter(
        |action: RefineRewriteActionModel|
            action.action_kind == RefineRewriteActionKind::RemoveNode,
    ).map_values(
        |action: RefineRewriteActionModel|
            RefineNodeRemovalModel {
                relative_path: action.target_relative_path->0,
                parent_relative_path: action.parent_relative_path,
                node_id: None,
                explicit: true,
            },
    )
}

/// The links that the actions add.
pub open spec fn link_changes_of(actions: Seq<RefineRewriteActionModel>) -> Seq<
    RefineLinkChangeModel,
> {
    actions.filter(
        |action: RefineRewriteActionModel|
            action.action_kind == RefineRewriteActionKind::UpdateLinks,
    ).map_values(
        |action: RefineRewriteActionModel|
            RefineLinkChangeModel {
                parent_relative_path: action.parent_relative_path->0,
                add_child_relative_paths: match action.target_relative_path {
                    Some(target) => seq![target],
                    None => Seq::empty(),
                },
                remove_child_relative_paths: Seq::empty(),
            },
    )
}

/// The scope touches what the actions name, in their order, and nothing else.
pub open spec fn touches(
    scope: RefineRewriteScopeModel,
    actions: Seq<RefineRewriteActionModel>,
) -> bool {
    &&& scope.rewrite_targets == targets_of(actions)
    &&& scope.node_creations == creations_of(actions)
    &&& scope.node_removals == removals_of(actions)
    &&& scope.link_changes == link_changes_of(actions)
    &&& scope.preserved_paths.len() == 0
    &&& scope.stale_descendants.len() == 0
    &&& scope.conflicts.len() == 0
}

/// The action names what it is to touch: a parent where links change, and else
/// a target.
pub open spec fn names_its_place(action: RefineRewriteActionModel) -> bool {
    if action.action_kind == RefineRewriteActionKind::UpdateLinks {
        action.parent_relative_path is Some
    } else {
        action.target_relative_path is Some
    }
}

/// The decision is cleared.
pub open spec fn is_cleared(decision: RefineDecisionModel) -> bool {
    decision.confirmation.status == RefineDecisionStatus::ConfirmationCleared
        || decision.confirmation.status == RefineDecisionStatus::AutoContinuationCandidate
}

proof fn one_more_action(
    scope: RefineRewriteScopeModel,
    done: Seq<RefineRewriteActionModel>,
    action: RefineRewriteActionModel,
)
    requires
        touches(scope, done),
    ensures
        match scope.with_action(action) {
            Ok(next) => touches(next, done.push(action)) && names_its_place(action),
            Err(error) => !names_its_place(action) && error == if action.action_kind
                == RefineRewriteActionKind::UpdateLinks {
                RefineRewriteScopeError::MissingLinkedNode
            } else {
                RefineRewriteScopeError::UnmappedImpact
            },
        },
{
    reveal(Seq::filter);
    let more = done.push(action);
    assert(more.drop_last() =~= done);
    assert(more.last() == action);
    if let Ok(next) = scope.with_action(action) {
        assert(next.rewrite_targets =~= targets_of(more));
        assert(next.node_creations =~= creations_of(more));
        assert(next.node_removals =~= removals_of(more));
        assert(next.link_changes =~= link_changes_of(more));
    }
}

proof fn more_actions(
    scope: RefineRewriteScopeModel,
    done: Seq<RefineRewriteActionModel>,
    actions: Seq<RefineRewriteActionModel>,
    i: int,
)
    requires
        0 <= i <= actions.len(),
        touches(scope, done + actions.take(i)),
        forall|k: int| 0 <= k < i ==> names_its_place(#[trigger] actions[k]),
    ensures
        match scope.with_actions_from(actions, i) {
            Ok(next) => touches(next, done + actions) && forall|k: int|
                0 <= k < actions.len() ==> names_its_place(#[trigger] actions[k]),
            Err(error) => exists|k: int| #[trigger] stops_at(actions, k, error),
        },
    decreases actions.len() - i,
{
    if i < actions.len() {
        one_more_action(scope, done + actions.take(i), actions[i]);
        assert((done + actions.take(i)).push(actions[i]) =~= done + actions.take(i + 1));
        match scope.with_action(actions[i]) {
            Ok(next) => {
                more_actions(next, done, actions, i + 1);
            },
            Err(error) => {
                assert(stops_at(actions, i, error));
            },
        }
    } else {
        assert(actions.take(i) =~= actions);
    }
}

/// Action `k` is the first that does not name its place, and this is the error
/// for it.
pub open spec fn stops_at(
    actions: Seq<RefineRewriteActionModel>,
    k: int,
    error: RefineRewriteScopeError,
) -> bool {
    &&& 0 <= k < actions.len()
    &&& !names_its_place(actions[k])
    &&& forall|j: int| 0 <= j < k ==> names_its_place(#[trigger] actions[j])
    &&& error == if actions[k].action_kind == RefineRewriteActionKind::UpdateLinks {
        RefineRewriteScopeError::MissingLinkedNode
    } else {
        RefineRewriteScopeError::UnmappedImpact
    }
}

/// The decision can be planned: it is cleared, and each of its actions names
/// its place.
pub open spec fn can_be_planned(decision: RefineDecisionModel) -> bool {
    is_cleared(decision) && forall|k: int|
        0 <= k < decision.rewrite_actions.len() ==> names_its_place(
            #[trigger] decision.rewrite_actions[k],
        )
}

/// Decision `d` is the first that cannot be planned, and this is the error for
/// it.
pub open spec fn planning_stops_at(
    decisions: Seq<RefineDecisionModel>,
    d: int,
    error: RefineRewriteScopeError,
) -> bool {
    &&& 0 <= d < decisions.len()
    &&& forall|j: int| 0 <= j < d ==> can_be_planned(#[trigger] decisions[j])
    &&& if is_cleared(decisions[d]) {
        exists|k: int| #[trigger] stops_at(decisions[d].rewrite_actions, k, error)
    } else {
        error == RefineRewriteScopeError::UnconfirmedDecision
    }
}

proof fn more_decisions(
    scope: RefineRewriteScopeModel,
    decisions: Seq<RefineDecisionModel>,
    i: int,
)
    requires
        0 <= i <= decisions.len(),
        touches(scope, actions_of(decisions, i)),
        forall|k: int| 0 <= k < i ==> can_be_planned(#[trigger] decisions[k]),
    ensures
        match scope.with_decisions_from(decisions, i) {
            Ok(next) => touches(next, actions_of(decisions, decisions.len() as int)) && forall|
                k: int,
            |
                0 <= k < decisions.len() ==> can_be_planned(#[trigger] decisions[k]),
            Err(error) => exists|d: int| #[trigger] planning_stops_at(decisions, d, error),
        },
    decreases decisions.len() - i,
{
    if i < decisions.len() {
        let actions = decisions[i].rewrite_actions;
        if is_cleared(decisions[i]) {
            assert(actions_of(decisions, i) + actions.take(0) =~= actions_of(decisions, i));
            more_actions(scope, actions_of(decisions, i), actions, 0);
            match scope.with_actions_from(actions, 0) {
                Ok(next) => {
                    assert(can_be_planned(decisions[i]));
                    more_decisions(next, decisions, i + 1);
                },
                Err(error) => {
                    assert(planning_stops_at(decisions, i, error));
                },
            }
        } else {
            assert(planning_stops_at(
                decisions,
                i,
                RefineRewriteScopeError::UnconfirmedDecision,
            ));
        }
    }
}

/// A plan of decisions touches exactly what their actions name: new text for
/// what is to be updated or marked, new nodes, removals and links, each in the
/// order of the actions. There is a plan exactly where every decision is cleared
/// and every action names its place; else the first that stands in the way tells
/// why.
pub proof fn plans_touch_what_actions_name(decisions: Seq<RefineDecisionModel>)
    ensures
        match RefineRewriteScopeModel::empty().with_decisions_from(decisions, 0) {
            Ok(scope) => touches(scope, actions_of(decisions, decisions.len() as int)) && forall|
                k: int,
            |
                0 <= k < decisions.len() ==> can_be_planned(#[trigger] decisions[k]),
            Err(error) => exists|d: int| #[trigger] planning_stops_at(decisions, d, error),
        },
{
    reveal(Seq::filter);
    let none = Seq::<RefineRewriteActionModel>::empty();
    assert(targets_of(none) =~= Seq::empty());
    assert(creations_of(none) =~= Seq::empty());
    assert(removals_of(none) =~= Seq::empty());
    assert(link_changes_of(none) =~= Seq::empty());
    more_decisions(RefineRewriteScopeModel::empty(), decisions, 0);
}

} // verus!
