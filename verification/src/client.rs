//! What a command-line client reads out of the answers of the daemon.

use crate::text::{begins, is_white_space, owned, strip_prefix, texts, white_space};
use vstd::prelude::*;
use vstd::string::*;

verus! {

/// The metadata-only end of a session.
#[derive(Debug, Eq, PartialEq)]
pub struct SessionResult {
    pub session: String,
    pub outcome: String,
    pub error_code: String,
    pub backend: String,
    pub char_count: u64,
}

/// The parts of a text between its white space.
pub open spec fn parts_of(text: Seq<char>) -> Seq<Seq<char>>
    decreases text.len(),
{
    if text.len() == 0 {
        seq![Seq::empty()]
    } else {
        let before = parts_of(text.drop_last());
        if white_space(text.last()) {
            before.push(Seq::empty())
        } else {
            before.drop_last().push(before.last().push(text.last()))
        }
    }
}

pub fn split_parts(text: &str) -> (parts: Vec<String>)
    ensures
        texts(parts@) == parts_of(text@),
{
    let mut parts: Vec<String> = Vec::new();
    let mut current = String::new();
    assert(texts(parts@).push(current@) =~= parts_of(text@.take(0)));
    for c in it: text.chars()
        invariant
            it.seq() == text@,
            texts(parts@).push(current@) == parts_of(text@.take(it.index() as int)),
    {
        proof {
            let n = it.index() as int;
            assert(text@.take(n + 1).drop_last() =~= text@.take(n));
            assert(text@.take(n + 1).last() == c);
        }
        let ghost before = texts(parts@);
        let ghost piece = current@;
        if is_white_space(c) {
            parts.push(current);
            current = String::new();
            assert(texts(parts@) =~= before.push(piece));
        } else {
            current.push(c);
            assert(before.push(piece).drop_last() =~= before);
        }
    }
    assert(text@.take(text@.len() as int) =~= text@);
    let ghost before = texts(parts@);
    let ghost piece = current@;
    parts.push(current);
    assert(texts(parts@) =~= before.push(piece));
    parts
}

/// The session that the first part from `i` on names, nothing where none does.
pub open spec fn named_session(parts: Seq<Seq<char>>, i: int) -> Seq<char>
    decreases parts.len() - i,
{
    if i < 0 || i >= parts.len() {
        Seq::empty()
    } else if begins(parts[i], "session="@) {
        parts[i].skip("session="@.len() as int)
    } else {
        named_session(parts, i + 1)
    }
}

/// The session that a client waits for: the one that it asked for, or else the one that the
/// daemon accepted.
pub fn requested_session(session: &str, accepted: &str) -> (r: String)
    ensures
        r@ == (if session@.len() > 0 {
            session@
        } else {
            named_session(parts_of(accepted@), 0)
        }),
{
    if session.unicode_len() > 0 {
        return owned(session);
    }
    let parts = split_parts(accepted);
    let ghost all = texts(parts@);
    for i in 0..parts.len()
        invariant
            all == texts(parts@),
            all == parts_of(accepted@),
            session@.len() == 0,
            named_session(all, 0) == named_session(all, i as int),
    {
        assert(all[i as int] == parts@[i as int]@);
        match strip_prefix(parts[i].as_str(), "session=") {
            Some(name) => {
                return owned(name);
            },
            None => {},
        }
    }
    String::new()
}

/// The session that an answer names is read out of it: what stands behind its name up to the next
/// white space.
pub proof fn law_session_is_read_out_of_an_answer(session: Seq<char>, rest: Seq<char>)
    requires
        forall|i: int| 0 <= i < session.len() ==> !white_space(#[trigger] session[i]),
        rest.len() == 0 || white_space(rest[0]),
    ensures
        named_session(parts_of("session="@ + session + rest), 0) == session,
{
    reveal_strlit("session=");
    let word = "session="@ + session;
    assert forall|i: int| 0 <= i < word.len() implies !white_space(#[trigger] word[i]) by {
        if i >= 8 {
            assert(word[i] == session[i - 8]);
        }
    }
    lemma_first_part(word, rest);
    let parts = parts_of(word + rest);
    assert(parts[0].subrange(0, 8) =~= "session="@);
    assert(parts[0].skip(8) =~= session);
}

proof fn lemma_parts_nonempty(text: Seq<char>)
    ensures
        parts_of(text).len() > 0,
    decreases text.len(),
{
    if text.len() > 0 {
        lemma_parts_nonempty(text.drop_last());
    }
}

proof fn lemma_one_part(word: Seq<char>)
    requires
        forall|i: int| 0 <= i < word.len() ==> !white_space(#[trigger] word[i]),
    ensures
        parts_of(word) == seq![word],
    decreases word.len(),
{
    if word.len() > 0 {
        lemma_one_part(word.drop_last());
        assert(!white_space(word[word.len() - 1]));
        assert(word.drop_last().push(word.last()) =~= word);
        assert(parts_of(word) =~= seq![word]);
    } else {
        assert(parts_of(word) =~= seq![word]) by {
            assert(word =~= Seq::<char>::empty());
        }
    }
}

proof fn lemma_first_part(word: Seq<char>, rest: Seq<char>)
    requires
        forall|i: int| 0 <= i < word.len() ==> !white_space(#[trigger] word[i]),
        rest.len() == 0 || white_space(rest[0]),
    ensures
        parts_of(word + rest).len() > 0,
        parts_of(word + rest)[0] == word,
        rest.len() > 0 ==> parts_of(word + rest).len() > 1,
    decreases rest.len(),
{
    let text = word + rest;
    if rest.len() == 0 {
        assert(text =~= word);
        lemma_one_part(word);
    } else {
        let shorter = rest.drop_last();
        assert(text.drop_last() =~= word + shorter);
        assert(text.last() == rest.last());
        lemma_first_part(word, shorter);
        if rest.len() == 1 {
            assert(white_space(text.last()));
        }
    }
}

/// An answer that names no session names none.
pub proof fn law_no_session_is_made_up(parts: Seq<Seq<char>>)
    requires
        forall|i: int| 0 <= i < parts.len() ==> !begins(#[trigger] parts[i], "session="@),
    ensures
        named_session(parts, 0) == Seq::<char>::empty(),
{
    lemma_none_named(parts, 0);
}

proof fn lemma_none_named(parts: Seq<Seq<char>>, from: int)
    requires
        0 <= from <= parts.len(),
        forall|i: int| 0 <= i < parts.len() ==> !begins(#[trigger] parts[i], "session="@),
    ensures
        named_session(parts, from) == Seq::<char>::empty(),
    decreases parts.len() - from,
{
    if from < parts.len() {
        assert(!begins(parts[from], "session="@));
        lemma_none_named(parts, from + 1);
    }
}

} // verus!
