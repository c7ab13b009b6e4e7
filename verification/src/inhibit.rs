//! Idle inhibitors that logind knows of.
//!
//! The daemon stays awake while one is held, and the `inhibit` command holds one
//! while a program runs.

use crate::text::{
    after, before, lemma_after_shorter, lemma_no_split, lemma_unsplit, pieces, same_text, split_once,
};
use vstd::prelude::*;

verus! {

/// What logind last told of the inhibitors that are held.
pub struct InhibitWatch {
    /// The colon-separated actions that are blocked, such as `idle:sleep`, or
    /// nothing if they could not be read.
    pub block_inhibited: Option<String>,
}

/// One of the actions in the list is `idle`.
pub open spec fn names_idle(list: Seq<char>) -> bool {
    pieces(list, ':').contains("idle"@)
}

/// Whether one of the actions in the list is `idle`.
pub fn lists_idle(list: &str) -> (r: bool)
    ensures
        r == names_idle(list@),
    decreases list@.len(),
{
    let (first, rest) = split_once(list, ':');
    proof {
        lemma_after_shorter(list@, ':');
        if after(list@, ':') is None {
            lemma_unsplit(list@, ':');
            assert(pieces(list@, ':') =~= seq![list@]);
        } else {
            assert(pieces(list@, ':') =~= seq![before(list@, ':')] + pieces(
                after(list@, ':')->0,
                ':',
            ));
        }
        assert(pieces(list@, ':')[0] == first@);
    }
    if same_text(first, "idle") {
        assert(pieces(list@, ':')[0] == "idle"@);
        return true;
    }
    match rest {
        Some(text) => {
            let r = lists_idle(text);
            proof {
                let tail = pieces(text@, ':');
                if tail.contains("idle"@) {
                    let i = choose|i: int| 0 <= i < tail.len() && tail[i] == "idle"@;
                    assert(pieces(list@, ':')[i + 1] == "idle"@);
                }
                if names_idle(list@) {
                    let i = choose|i: int|
                        0 <= i < pieces(list@, ':').len() && pieces(list@, ':')[i] == "idle"@;
                    assert(tail[i - 1] == "idle"@);
                }
            }
            r
        },
        None => false,
    }
}

impl InhibitWatch {
    /// Something holds an idle inhibitor.
    pub open spec fn blocks_idle(self) -> bool {
        match self.block_inhibited {
            Some(list) => names_idle(list@),
            None => false,
        }
    }

    /// Whether something holds an idle inhibitor. Where logind cannot be asked,
    /// nothing does.
    pub fn idle_blocked(&self) -> (r: bool)
        ensures
            r == self.blocks_idle(),
    {
        match &self.block_inhibited {
            Some(list) => lists_idle(list.as_str()),
            None => false,
        }
    }
}

/// Whether anything keeps the screen awake: an inhibitor of logind, or one of the
/// screensaver service. A service that is not there holds none.
pub fn idle_inhibited(logind: Option<&InhibitWatch>, screensaver: Option<bool>) -> (r: bool)
    ensures
        r <==> (logind matches Some(w) && w.blocks_idle()) || screensaver == Some(true),
{
    let by_logind: bool = match logind {
        Some(w) => w.idle_blocked(),
        None => false,
    };
    let by_screensaver: bool = match screensaver {
        Some(held) => held,
        None => false,
    };
    by_logind || by_screensaver
}

/// A lock on the actions `what` keeps the screen awake: `idle` is one of them, and
/// the lock blocks rather than delays.
pub open spec fn keeps_awake(what: Seq<char>, mode: Seq<char>) -> bool {
    names_idle(what) && mode == "block"@
}

/// Whether a lock that logind lists is one that keeps the screen awake.
pub fn is_idle_lock(what: &str, mode: &str) -> (r: bool)
    ensures
        r == keeps_awake(what@, mode@),
{
    same_text(mode, "block") && lists_idle(what)
}

/// The debug line that names who keeps the screen awake.
pub fn lock_line(who: &str, pid: &str, why: &str) -> (r: String)
    ensures
        r@ == "idle inhibited by "@ + who@ + " (pid "@ + pid@ + "): "@ + why@,
{
    "idle inhibited by ".to_owned().concat(who).concat(" (pid ").concat(pid).concat("): ").concat(
        why,
    )
}

/// A lock to ask logind for.
pub struct LockRequest {
    pub what: String,
    pub who: String,
    pub why: String,
    pub mode: String,
}

/// The lock that prevents blanking, for the reason `why`.
pub fn lock_request(why: &str) -> (r: LockRequest)
    ensures
        r.what@ == "idle"@,
        r.who@ == "gamescope-idle"@,
        r.why@ == why@,
        r.mode@ == "block"@,
        keeps_awake(r.what@, r.mode@),
{
    proof {
        lemma_idle_alone();
    }
    LockRequest {
        what: "idle".to_owned(),
        who: "gamescope-idle".to_owned(),
        why: why.to_owned(),
        mode: "block".to_owned(),
    }
}

/// The exit code to pass on: that of the program, or 1 if it ended without one.
pub fn exit_code(code: Option<i32>) -> (r: i32)
    ensures
        r == match code {
            Some(c) => c,
            None => 1i32,
        },
{
    match code {
        Some(c) => c,
        None => 1,
    }
}

/// Words with a colon between them.
pub open spec fn with_colons(words: Seq<Seq<char>>) -> Seq<char>
    decreases words.len(),
{
    if words.len() == 0 {
        Seq::empty()
    } else if words.len() == 1 {
        words[0]
    } else {
        words[0] + seq![':'] + with_colons(words.drop_first())
    }
}

/// No word holds a colon.
pub open spec fn colon_free(words: Seq<Seq<char>>) -> bool {
    forall|i: int, k: int|
        0 <= i < words.len() && 0 <= k < words[i].len() ==> #[trigger] words[i][k] != ':'
}

/// A word and a colon are split off again.
proof fn lemma_split_word(word: Seq<char>, rest: Seq<char>)
    requires
        forall|k: int| 0 <= k < word.len() ==> #[trigger] word[k] != ':',
    ensures
        before(word + seq![':'] + rest, ':') == word,
        after(word + seq![':'] + rest, ':') == Some(rest),
    decreases word.len(),
{
    let s = word + seq![':'] + rest;
    if word.len() == 0 {
        assert(s[0] == ':');
        assert(s.drop_first() =~= rest);
        assert(word =~= Seq::<char>::empty());
    } else {
        assert(s[0] == word[0]);
        assert(s.drop_first() =~= word.drop_first() + seq![':'] + rest);
        assert forall|k: int| 0 <= k < word.drop_first().len() implies #[trigger] word.drop_first()[k]
            != ':' by {
            assert(word.drop_first()[k] == word[k + 1]);
        }
        lemma_split_word(word.drop_first(), rest);
        assert(seq![word[0]] + word.drop_first() =~= word);
    }
}

/// The words that were joined are the pieces that are read.
proof fn lemma_pieces_of_words(words: Seq<Seq<char>>)
    requires
        words.len() > 0,
        colon_free(words),
    ensures
        pieces(with_colons(words), ':') == words,
    decreases words.len(),
{
    if words.len() == 1 {
        assert forall|k: int| 0 <= k < words[0].len() implies #[trigger] words[0][k] != ':' by {}
        lemma_no_split(words[0], ':');
        assert(words =~= seq![words[0]]);
    } else {
        let tail = words.drop_first();
        assert forall|i: int, k: int|
            0 <= i < tail.len() && 0 <= k < tail[i].len() implies #[trigger] tail[i][k] != ':' by {
            assert(tail[i] == words[i + 1]);
            assert(words[i + 1][k] != ':');
        }
        lemma_pieces_of_words(tail);
        lemma_split_word(words[0], with_colons(tail));
        assert(seq![words[0]] + tail =~= words);
    }
}

/// The daemon is held awake if and only if `idle` is among the actions that are
/// blocked, wherever it stands in the list. With nothing blocked, nothing holds it
/// awake.
pub proof fn law_blocked_iff_idle_is_listed(words: Seq<Seq<char>>)
    requires
        colon_free(words),
    ensures
        names_idle(with_colons(words)) <==> words.contains("idle"@),
{
    if words.len() == 0 {
        reveal_strlit("idle");
        assert(pieces(Seq::empty(), ':') =~= seq![Seq::<char>::empty()]);
        assert("idle"@.len() == 4);
    } else {
        lemma_pieces_of_words(words);
    }
}

/// A list of `idle` alone names it.
proof fn lemma_idle_alone()
    ensures
        names_idle("idle"@),
{
    reveal_strlit("idle");
    let words = seq!["idle"@];
    assert(words[0] == "idle"@);
    law_blocked_iff_idle_is_listed(words);
}

/// Only a lock that blocks keeps the screen awake, and only if `idle` is among the
/// actions that it is held on.
pub proof fn law_only_blocking_locks_keep_awake(words: Seq<Seq<char>>, mode: Seq<char>)
    requires
        colon_free(words),
    ensures
        keeps_awake(with_colons(words), mode) <==> words.contains("idle"@) && mode == "block"@,
{
    law_blocked_iff_idle_is_listed(words);
}

/// What logind told decides; where it could not be asked, nothing is blocked.
pub proof fn law_logind_decides(w: InhibitWatch, words: Seq<Seq<char>>)
    requires
        colon_free(words),
    ensures
        w.block_inhibited is None ==> !w.blocks_idle(),
        w.block_inhibited is Some && w.block_inhibited->0@ == with_colons(words) ==> (
        w.blocks_idle() <==> words.contains("idle"@)),
{
    law_blocked_iff_idle_is_listed(words);
}

} // verus!
