//! The slot that holds log text produced inside the process until the
//! supervisor drains it.

use crate::text::occurs_at;
use vstd::prelude::*;
use vstd::string::StringExecFns;

verus! {

/// At most one pending batch of formatted log text.
#[derive(Debug)]
pub enum NewInternalLog {
    /// Text that has not been written to the destination yet.
    New(String),
    /// Nothing is pending.
    Empty,
}

/// The text that is pending after each of `texts` was appended in turn to
/// a slot that held `pending`.
pub open spec fn after_appends(pending: Seq<char>, texts: Seq<Seq<char>>) -> Seq<char>
    decreases texts.len(),
{
    if texts.len() == 0 {
        pending
    } else {
        after_appends(pending, texts.drop_last()) + texts.last()
    }
}

/// The lengths of `texts`, added up.
pub open spec fn total_len(texts: Seq<Seq<char>>) -> nat
    decreases texts.len(),
{
    if texts.len() == 0 {
        0
    } else {
        total_len(texts.drop_last()) + texts.last().len()
    }
}

impl Clone for NewInternalLog {
    /// A slot with the same pending text.
    fn clone(&self) -> (copy: Self)
        ensures
            copy == *self,
    {
        match self {
            NewInternalLog::New(text) => NewInternalLog::New(text.clone()),
            NewInternalLog::Empty => NewInternalLog::Empty,
        }
    }
}

impl Default for NewInternalLog {
    /// The empty slot.
    fn default() -> (slot: Self)
        ensures
            slot == NewInternalLog::Empty,
    {
        NewInternalLog::Empty
    }
}

impl NewInternalLog {
    /// The pending text; empty when nothing is pending.
    pub open spec fn pending(&self) -> Seq<char> {
        match self {
            NewInternalLog::New(text) => text@,
            NewInternalLog::Empty => Seq::empty(),
        }
    }

    /// Whether a batch is pending.
    pub fn is_new(&self) -> (pending: bool)
        ensures
            pending == (self is New),
    {
        match self {
            NewInternalLog::New(_) => true,
            NewInternalLog::Empty => false,
        }
    }

    /// Empties the slot.
    pub fn reset(&mut self)
        ensures
            *final(self) == NewInternalLog::Empty,
    {
        *self = NewInternalLog::Empty
    }

    /// Puts `text` behind what is pending. Nothing that was pending is lost
    /// or changed.
    pub fn append(&mut self, text: &str)
        ensures
            *final(self) is New,
            final(self).pending() == old(self).pending() + text@,
    {
        let mut taken = NewInternalLog::Empty;
        core::mem::swap(self, &mut taken);
        let merged = match taken {
            NewInternalLog::New(pending) => pending.concat(text),
            NewInternalLog::Empty => {
                assert(Seq::<char>::empty() + text@ =~= text@);
                String::from_str(text)
            },
        };
        *self = NewInternalLog::New(merged);
    }

    /// Takes the pending text out and leaves the slot empty. Gives nothing
    /// where nothing was pending.
    pub fn take(&mut self) -> (taken: Option<String>)
        ensures
            *final(self) == NewInternalLog::Empty,
            match *old(self) {
                NewInternalLog::New(text) => taken == Some(text),
                NewInternalLog::Empty => taken is None,
            },
    {
        let mut taken = NewInternalLog::Empty;
        core::mem::swap(self, &mut taken);
        match taken {
            NewInternalLog::New(text) => Some(text),
            NewInternalLog::Empty => None,
        }
    }
}

/// Appending loses nothing: after any number of appends to an empty slot,
/// in whatever order they arrived, the pending text is exactly as long as
/// all the texts together, and each text stands in it whole, just behind
/// those that arrived before it.
pub proof fn lemma_appends_keep_every_text(texts: Seq<Seq<char>>, k: int)
    requires
        0 <= k < texts.len(),
    ensures
        after_appends(Seq::empty(), texts).len() == total_len(texts),
        occurs_at(
            after_appends(Seq::empty(), texts),
            texts[k],
            total_len(texts.take(k)) as int,
        ),
    decreases texts.len(),
{
    let all = after_appends(Seq::empty(), texts);
    let front = texts.drop_last();
    lemma_appends_len(texts);
    if k == texts.len() - 1 {
        lemma_appends_len(front);
        assert(texts.take(k) =~= front);
        let at = total_len(front) as int;
        assert(all.subrange(at, at + texts[k].len()) =~= texts[k]);
    } else {
        lemma_appends_keep_every_text(front, k);
        assert(front.take(k) =~= texts.take(k));
        let at = total_len(texts.take(k)) as int;
        assert(all.subrange(at, at + texts[k].len()) =~= after_appends(
            Seq::empty(),
            front,
        ).subrange(at, at + texts[k].len()));
    }
}

/// After appends to an empty slot the pending text is as long as all the
/// texts together.
pub proof fn lemma_appends_len(texts: Seq<Seq<char>>)
    ensures
        after_appends(Seq::empty(), texts).len() == total_len(texts),
    decreases texts.len(),
{
    if texts.len() > 0 {
        lemma_appends_len(texts.drop_last());
    }
}

} // verus!
