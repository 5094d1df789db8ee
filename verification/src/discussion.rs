//! Discussion on issues: who may comment, edit and delete comments, and
//! the reactions users may toggle.

use vstd::prelude::*;
use vstd::string::StringExecFns;
use crate::text::{chars_of, text_is};

verus! {

/// Why a comment or reaction request is refused.
#[derive(Clone, Copy, PartialEq, Eq, Structural, Debug)]
pub enum DiscussionError {
    /// The repository is archived and read-only
    Archived,
    /// The issue is locked
    Locked,
    /// The user neither wrote the comment nor manages issues
    InsufficientPermissions,
    /// The emoji is not one of the allowed reactions
    EmojiNotAllowed,
    /// There is no such comment
    CommentNotFound,
}

/// Checks a request to comment on an issue: not in an archived repository,
/// not on a locked issue.
pub fn check_add_comment(archived: bool, locked: bool) -> (r: Result<(), DiscussionError>)
    ensures
        r == (if archived {
            Err(DiscussionError::Archived)
        } else if locked {
            Err(DiscussionError::Locked)
        } else {
            Ok(())
        }),
{
    if archived {
        Err(DiscussionError::Archived)
    } else if locked {
        Err(DiscussionError::Locked)
    } else {
        Ok(())
    }
}

/// Checks a request to edit or delete a comment: not in an archived
/// repository, and only by its author or those who manage issues.
pub fn check_change_comment(archived: bool, is_author: bool, can_manage: bool) -> (r: Result<(), DiscussionError>)
    ensures
        r == (if archived {
            Err(DiscussionError::Archived)
        } else if !is_author && !can_manage {
            Err(DiscussionError::InsufficientPermissions)
        } else {
            Ok(())
        }),
{
    if archived {
        Err(DiscussionError::Archived)
    } else if !is_author && !can_manage {
        Err(DiscussionError::InsufficientPermissions)
    } else {
        Ok(())
    }
}

/// The reactions users may give.
pub open spec fn allowed_emojis() -> Seq<Seq<char>> {
    seq![
        "👍"@,
        "👎"@,
        "😄"@,
        "🎉"@,
        "😕"@,
        "❤️"@,
        "🚀"@,
        "👀"@,
        "😹😭✌️"@,
        "☝️🤓"@,
        "🕳️👨‍🦯"@,
        "❓"@,
        "⁉️"@,
        "‼️"@,
        "😭"@,
        "😂"@,
        "🥀"@,
        "🤬"@,
        "🥹"@,
        "🍔"@,
        "💯"@,
        "🤣"@,
        "🫶"@,
        "💀"@,
        "🤡"@,
        "🧢"@,
        "🐐"@,
        "🙏"@,
        "🔥"@,
        "😈"@,
        "😔"@,
        "✅"@,
        "🤦"@,
        "❌"@
    ]
}

fn allowed_emoji_list() -> (r: Vec<&'static str>)
    ensures
        r@.len() == allowed_emojis().len(),
        forall|i: int| 0 <= i < r@.len() ==> #[trigger] r@[i]@ == allowed_emojis()[i],
{
    let r = vec![
        "👍",
        "👎",
        "😄",
        "🎉",
        "😕",
        "❤️",
        "🚀",
        "👀",
        "😹😭✌️",
        "☝️🤓",
        "🕳️👨‍🦯",
        "❓",
        "⁉️",
        "‼️",
        "😭",
        "😂",
        "🥀",
        "🤬",
        "🥹",
        "🍔",
        "💯",
        "🤣",
        "🫶",
        "💀",
        "🤡",
        "🧢",
        "🐐",
        "🙏",
        "🔥",
        "😈",
        "😔",
        "✅",
        "🤦",
        "❌"
    ];
    assert(r@.len() == allowed_emojis().len());
    r
}

/// Whether an emoji is one of the allowed reactions.
pub fn is_allowed_emoji(emoji: &str) -> (r: bool)
    ensures
        r == allowed_emojis().contains(emoji@),
{
    let list = allowed_emoji_list();
    let cs = chars_of(emoji);
    let mut i: usize = 0;
    while i < list.len()
        invariant
            i <= list@.len(),
            cs@ == emoji@,
            list@.len() == allowed_emojis().len(),
            forall|k: int| 0 <= k < list@.len() ==> #[trigger] list@[k]@ == allowed_emojis()[k],
            forall|k: int| 0 <= k < i ==> allowed_emojis()[k] != emoji@,
        decreases list@.len() - i,
    {
        if text_is(cs.as_slice(), list[i]) {
            assert(allowed_emojis()[i as int] == emoji@);
            return true;
        }
        i += 1;
    }
    false
}

/// What toggling a reaction does.
#[derive(Clone, Copy, PartialEq, Eq, Structural, Debug)]
pub enum ReactionAction {
    Add,
    Remove,
}

/// What toggling a reaction comes to: refused for an emoji that is not
/// allowed; otherwise the user's reaction with that emoji is removed when
/// it exists and added when it does not.
pub open spec fn reaction_outcome(emoji: Seq<char>, existing: bool) -> Result<ReactionAction, DiscussionError> {
    if !allowed_emojis().contains(emoji) {
        Err(DiscussionError::EmojiNotAllowed)
    } else if existing {
        Ok(ReactionAction::Remove)
    } else {
        Ok(ReactionAction::Add)
    }
}

/// Toggles a reaction on an issue; see [`reaction_outcome`].
pub fn toggle_issue_reaction(emoji: &str, existing: bool) -> (r: Result<ReactionAction, DiscussionError>)
    ensures
        r == reaction_outcome(emoji@, existing),
{
    if !is_allowed_emoji(emoji) {
        Err(DiscussionError::EmojiNotAllowed)
    } else if existing {
        Ok(ReactionAction::Remove)
    } else {
        Ok(ReactionAction::Add)
    }
}

/// The reactions (user and emoji) after an action on one of them.
pub open spec fn apply_reaction(
    reactions: Set<(u128, Seq<char>)>,
    key: (u128, Seq<char>),
    a: ReactionAction,
) -> Set<(u128, Seq<char>)> {
    match a {
        ReactionAction::Add => reactions.insert(key),
        ReactionAction::Remove => reactions.remove(key),
    }
}

/// Toggling a reaction flips whether the user reacted with that emoji, and
/// toggling it twice leaves the reactions as they were.
pub proof fn lemma_toggle_reaction_twice(reactions: Set<(u128, Seq<char>)>, user: u128, emoji: Seq<char>)
    requires
        allowed_emojis().contains(emoji),
    ensures
        ({
            let k = (user, emoji);
            &&& reaction_outcome(emoji, reactions.contains(k)) is Ok
            &&& apply_reaction(reactions, k, reaction_outcome(emoji, reactions.contains(k))->Ok_0).contains(k)
                == !reactions.contains(k)
            &&& ({
                let once = apply_reaction(reactions, k, reaction_outcome(emoji, reactions.contains(k))->Ok_0);
                &&& reaction_outcome(emoji, once.contains(k)) is Ok
                &&& apply_reaction(once, k, reaction_outcome(emoji, once.contains(k))->Ok_0) == reactions
            })
        }),
{
    let k = (user, emoji);
    let once = apply_reaction(reactions, k, reaction_outcome(emoji, reactions.contains(k))->Ok_0);
    assert(apply_reaction(once, k, reaction_outcome(emoji, once.contains(k))->Ok_0) =~= reactions);
}

/// Toggles a reaction on a comment: as on an issue, and the comment must be
/// one of the named issue of the repository (checked after the emoji;
/// `comment_on_issue` is the answer of [`comment_on_issue_query`]).
pub fn toggle_comment_reaction(emoji: &str, comment_on_issue: bool, existing: bool) -> (r: Result<ReactionAction, DiscussionError>)
    ensures
        r == (if !allowed_emojis().contains(emoji@) {
            Err(DiscussionError::EmojiNotAllowed)
        } else if !comment_on_issue {
            Err(DiscussionError::CommentNotFound)
        } else if existing {
            Ok(ReactionAction::Remove)
        } else {
            Ok(ReactionAction::Add)
        }),
{
    if !is_allowed_emoji(emoji) {
        Err(DiscussionError::EmojiNotAllowed)
    } else if !comment_on_issue {
        Err(DiscussionError::CommentNotFound)
    } else if existing {
        Ok(ReactionAction::Remove)
    } else {
        Ok(ReactionAction::Add)
    }
}

/// The query that tells whether a comment (its id bound as `$1`) is one of
/// the issue with the given number (`$3`) in the repository (`$2`).
pub open spec fn comment_on_issue_query_text() -> Seq<char> {
    "select exists(select 1 from issue_comment_cache c join issue_cache i on i.id = c.issue_id where c.id = $1 and i.repo_id = $2 and i.\"index\" = $3)"@
}

/// Writes the query of [`comment_on_issue_query_text`].
pub fn comment_on_issue_query() -> (r: String)
    ensures
        r@ == comment_on_issue_query_text(),
{
    String::from_str(
        "select exists(select 1 from issue_comment_cache c join issue_cache i on i.id = c.issue_id where c.id = $1 and i.repo_id = $2 and i.\"index\" = $3)",
    )
}

/// What reactions are read for.
#[derive(Clone, Copy, PartialEq, Eq, Structural, Debug)]
pub enum ReactionTarget {
    Issue,
    Comment,
}

/// The column that ties a reaction to its target.
pub open spec fn target_column(t: ReactionTarget) -> Seq<char> {
    match t {
        ReactionTarget::Issue => "issue_id"@,
        ReactionTarget::Comment => "comment_id"@,
    }
}

/// The query of the reactions on an issue or comment (its id bound as `$1`,
/// the viewer's id, if any, as `$2`): one row per emoji, in order, with its
/// count and whether the viewer gave it.
pub open spec fn reactions_query_text(t: ReactionTarget) -> Seq<char> {
    "select emoji, count(*) as count, ($2::uuid is not null and bool_or(user_id = $2)) as reacted from reactions where "@
        + target_column(t) + " = $1 group by emoji order by emoji"@
}

/// Writes the query of the reactions on a target; see [`reactions_query_text`].
pub fn reactions_query(t: ReactionTarget) -> (r: String)
    ensures
        r@ == reactions_query_text(t),
{
    let mut s = String::from_str(
        "select emoji, count(*) as count, ($2::uuid is not null and bool_or(user_id = $2)) as reacted from reactions where ",
    );
    match t {
        ReactionTarget::Issue => s.append("issue_id"),
        ReactionTarget::Comment => s.append("comment_id"),
    }
    s.append(" = $1 group by emoji order by emoji");
    s
}

/// Law: only allowed emojis are toggled; an allowed one is removed when
/// the user already reacted with it and added otherwise.
pub proof fn lemma_reaction_rules(emoji: Seq<char>, existing: bool)
    ensures
        !allowed_emojis().contains(emoji) ==> reaction_outcome(emoji, existing) == Err::<ReactionAction, DiscussionError>(
            DiscussionError::EmojiNotAllowed,
        ),
        reaction_outcome(emoji, existing) is Ok ==> allowed_emojis().contains(emoji),
        allowed_emojis().contains(emoji) ==> reaction_outcome(emoji, existing) == Ok::<ReactionAction, DiscussionError>(
            if existing {
                ReactionAction::Remove
            } else {
                ReactionAction::Add
            },
        ),
{
}

} // verus!
