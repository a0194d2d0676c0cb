//! Editable text, in two storage modes.
//!
//! Short text lives in a plain character vector; long text is kept in a
//! rope, an outside balanced-tree structure whose edits stay cheap on large
//! documents. Both modes expose the same character-indexed editing API and
//! the same view: the sequence of characters held. The rope's operations
//! are trusted against the rope crate's documentation; the mode switches
//! and the short-mode editing are verified.

use vstd::prelude::*;

verus! {

/// The rope type of the outside text crate, declared so it can stand in
/// fields and signatures.
#[verifier::external_type_specification]
#[verifier::external_body]
pub struct ExRope(ropey::Rope);

/// What a rope holds: its characters in order.
pub uninterp spec fn rope_chars(r: ropey::Rope) -> Seq<char>;

/// Relies on `ropey::Rope::new`: a fresh rope holds nothing.
#[verifier::external_body]
fn rope_new() -> (r: ropey::Rope)
    ensures
        rope_chars(r) == Seq::<char>::empty(),
{
    ropey::Rope::new()
}

/// Relies on `ropey::Rope::from_str`: the rope holds exactly the given
/// characters.
#[verifier::external_body]
fn rope_from_chars(text: &Vec<char>) -> (r: ropey::Rope)
    ensures
        rope_chars(r) == text@,
{
    let s: String = text.iter().collect();
    ropey::Rope::from_str(&s)
}

/// Relies on `ropey::Rope::len_chars`: the number of characters held.
#[verifier::external_body]
fn rope_len_chars(r: &ropey::Rope) -> (n: usize)
    ensures
        n == rope_chars(*r).len(),
{
    r.len_chars()
}

/// Relies on `ropey::Rope::chars`: walking the rope yields its characters
/// in order.
#[verifier::external_body]
fn rope_to_chars(r: &ropey::Rope) -> (v: Vec<char>)
    ensures
        v@ == rope_chars(*r),
{
    r.chars().collect()
}

/// Relies on `ropey::Rope::insert`: the text lands at the character index,
/// pushing what follows back. The index must not pass the end.
#[verifier::external_body]
fn rope_insert(r: &mut ropey::Rope, char_idx: usize, text: &Vec<char>)
    requires
        char_idx <= rope_chars(*old(r)).len(),
    ensures
        rope_chars(*final(r)) == rope_chars(*old(r)).subrange(0, char_idx as int) + text@
            + rope_chars(*old(r)).subrange(
            char_idx as int,
            rope_chars(*old(r)).len() as int,
        ),
{
    let s: String = text.iter().collect();
    r.insert(char_idx, &s)
}

/// Relies on `ropey::Rope::insert_char`: one character lands at the index.
#[verifier::external_body]
fn rope_insert_char(r: &mut ropey::Rope, char_idx: usize, ch: char)
    requires
        char_idx <= rope_chars(*old(r)).len(),
    ensures
        rope_chars(*final(r)) == rope_chars(*old(r)).subrange(0, char_idx as int).push(ch)
            + rope_chars(*old(r)).subrange(
            char_idx as int,
            rope_chars(*old(r)).len() as int,
        ),
{
    r.insert_char(char_idx, ch)
}

/// Relies on `ropey::Rope::remove`: the character range leaves the rope.
/// The range must be ordered and end within the rope.
#[verifier::external_body]
fn rope_remove(r: &mut ropey::Rope, start: usize, end: usize)
    requires
        start <= end <= rope_chars(*old(r)).len(),
    ensures
        rope_chars(*final(r)) == rope_chars(*old(r)).subrange(0, start as int) + rope_chars(
            *old(r),
        ).subrange(end as int, rope_chars(*old(r)).len() as int),
{
    r.remove(start..end)
}

/// Where the characters live.
enum TextInner {
    /// A rope, for long documents.
    Long(ropey::Rope),
    /// A plain character vector, for short runs.
    Short(Vec<char>),
}

/// A run of editable text addressed by character index.
pub struct Text {
    inner: TextInner,
}

impl Text {
    /// The characters held, in order, whatever the storage mode.
    pub closed spec fn chars(self) -> Seq<char> {
        match self.inner {
            TextInner::Long(r) => rope_chars(r),
            TextInner::Short(v) => v@,
        }
    }

    /// Whether the text is in rope storage.
    pub closed spec fn is_long(self) -> bool {
        self.inner is Long
    }

    /// Empty text in short storage.
    pub fn new() -> (r: Text)
        ensures
            r.chars() == Seq::<char>::empty(),
            !r.is_long(),
    {
        Text { inner: TextInner::Short(Vec::new()) }
    }

    /// Text over the given characters, in short storage.
    pub fn from_chars(text: Vec<char>) -> (r: Text)
        ensures
            r.chars() == text@,
            !r.is_long(),
    {
        Text { inner: TextInner::Short(text) }
    }

    /// Moves the text into rope storage; the characters stay as they are.
    pub fn long_text_mode(&mut self)
        ensures
            final(self).chars() == old(self).chars(),
            final(self).is_long(),
    {
        match &self.inner {
            TextInner::Short(v) => {
                let rope = rope_from_chars(v);
                self.inner = TextInner::Long(rope);
            },
            TextInner::Long(_) => {},
        }
    }

    /// Moves the text into short storage; the characters stay as they are.
    pub fn short_text_mode(&mut self)
        ensures
            final(self).chars() == old(self).chars(),
            !final(self).is_long(),
    {
        let flat = match &self.inner {
            TextInner::Long(r) => rope_to_chars(r),
            TextInner::Short(_) => {
                return ;
            },
        };
        self.inner = TextInner::Short(flat);
    }

    /// Whether no character is held.
    pub fn is_empty(&self) -> (r: bool)
        ensures
            r == (self.chars().len() == 0),
    {
        match &self.inner {
            TextInner::Long(rope) => rope_len_chars(rope) == 0,
            TextInner::Short(v) => v.len() == 0,
        }
    }

    /// The number of characters held.
    pub fn len_chars(&self) -> (r: usize)
        ensures
            r == self.chars().len(),
    {
        match &self.inner {
            TextInner::Long(rope) => rope_len_chars(rope),
            TextInner::Short(v) => v.len(),
        }
    }

    /// All characters, in order.
    pub fn export_chars(&self) -> (r: Vec<char>)
        ensures
            r@ == self.chars(),
    {
        match &self.inner {
            TextInner::Long(rope) => rope_to_chars(rope),
            TextInner::Short(v) => {
                let mut out: Vec<char> = Vec::new();
                let mut i: usize = 0;
                while i < v.len()
                    invariant
                        0 <= i <= v@.len(),
                        out@.len() == i,
                        forall|k: int| 0 <= k < i ==> out@[k] == v@[k],
                    decreases v@.len() - i,
                {
                    out.push(v[i]);
                    i = i + 1;
                }
                proof {
                    assert(out@ =~= v@);
                }
                out
            },
        }
    }

    /// Up to `length` characters starting at `start`; whatever lies past the
    /// end of the text is simply not there.
    pub fn get_chars(&self, start: usize, length: usize) -> (r: Vec<char>)
        ensures
            r@ == if start as int <= self.chars().len() {
                self.chars().subrange(
                    start as int,
                    crate::fixed::imin(start as int + length as int, self.chars().len() as int),
                )
            } else {
                Seq::<char>::empty()
            },
    {
        let all = self.export_chars();
        let mut out: Vec<char> = Vec::new();
        if start > all.len() {
            proof {
                assert(out@ =~= Seq::<char>::empty());
            }
            return out;
        }
        let stop: usize = if length > all.len() - start {
            all.len()
        } else {
            start + length
        };
        let mut i: usize = start;
        while i < stop
            invariant
                start <= i <= stop <= all@.len(),
                all@ == self.chars(),
                out@.len() == i - start,
                forall|k: int| 0 <= k < i - start ==> out@[k] == all@[start as int + k],
            decreases stop - i,
        {
            out.push(all[i]);
            i = i + 1;
        }
        proof {
            assert(out@ =~= self.chars().subrange(
                start as int,
                crate::fixed::imin(start as int + length as int, self.chars().len() as int),
            ));
        }
        out
    }

    /// Inserts characters at a character index, pushing what follows back.
    pub fn insert_chars(&mut self, char_idx: usize, text: &Vec<char>)
        requires
            char_idx <= old(self).chars().len(),
        ensures
            final(self).chars() == old(self).chars().subrange(0, char_idx as int) + text@ + old(
                self,
            ).chars().subrange(char_idx as int, old(self).chars().len() as int),
            final(self).is_long() == old(self).is_long(),
    {
        match &mut self.inner {
            TextInner::Long(rope) => {
                rope_insert(rope, char_idx, text);
            },
            TextInner::Short(v) => {
                let mut out: Vec<char> = Vec::new();
                let mut i: usize = 0;
                while i < char_idx
                    invariant
                        0 <= i <= char_idx <= v@.len(),
                        out@.len() == i,
                        forall|k: int| 0 <= k < i ==> out@[k] == v@[k],
                    decreases char_idx - i,
                {
                    out.push(v[i]);
                    i = i + 1;
                }
                let mut j: usize = 0;
                while j < text.len()
                    invariant
                        0 <= j <= text@.len(),
                        out@.len() == char_idx + j,
                        forall|k: int| 0 <= k < char_idx ==> out@[k] == v@[k],
                        forall|k: int|
                            0 <= k < j ==> out@[char_idx as int + k] == text@[k],
                    decreases text@.len() - j,
                {
                    out.push(text[j]);
                    j = j + 1;
                }
                let mut m: usize = char_idx;
                while m < v.len()
                    invariant
                        char_idx <= m <= v@.len(),
                        out@.len() == m + text@.len(),
                        forall|k: int| 0 <= k < char_idx ==> out@[k] == v@[k],
                        forall|k: int|
                            0 <= k < text@.len() ==> out@[char_idx as int + k] == text@[k],
                        forall|k: int|
                            char_idx <= k < m ==> out@[k + text@.len()] == v@[k],
                    decreases v@.len() - m,
                {
                    out.push(v[m]);
                    m = m + 1;
                }
                proof {
                    assert(out@ =~= v@.subrange(0, char_idx as int) + text@ + v@.subrange(
                        char_idx as int,
                        v@.len() as int,
                    ));
                }
                *v = out;
            },
        }
    }

    /// Appends one character.
    pub fn push(&mut self, ch: char)
        ensures
            final(self).chars() == old(self).chars().push(ch),
            final(self).is_long() == old(self).is_long(),
    {
        match &mut self.inner {
            TextInner::Long(rope) => {
                let n = rope_len_chars(rope);
                rope_insert_char(rope, n, ch);
                proof {
                    assert(rope_chars(*rope) =~= old(self).chars().push(ch));
                }
            },
            TextInner::Short(v) => {
                v.push(ch);
            },
        }
    }

    /// Removes the character range `[start, end)`.
    pub fn remove_range(&mut self, start: usize, end: usize)
        requires
            start <= end <= old(self).chars().len(),
        ensures
            final(self).chars() == old(self).chars().subrange(0, start as int) + old(
                self,
            ).chars().subrange(end as int, old(self).chars().len() as int),
            final(self).is_long() == old(self).is_long(),
    {
        match &mut self.inner {
            TextInner::Long(rope) => {
                rope_remove(rope, start, end);
            },
            TextInner::Short(v) => {
                let mut out: Vec<char> = Vec::new();
                let mut i: usize = 0;
                while i < start
                    invariant
                        0 <= i <= start <= v@.len(),
                        out@.len() == i,
                        forall|k: int| 0 <= k < i ==> out@[k] == v@[k],
                    decreases start - i,
                {
                    out.push(v[i]);
                    i = i + 1;
                }
                let mut m: usize = end;
                while m < v.len()
                    invariant
                        end <= m <= v@.len(),
                        start <= end,
                        out@.len() == start + (m - end),
                        forall|k: int| 0 <= k < start ==> out@[k] == v@[k],
                        forall|k: int|
                            end <= k < m ==> out@[k - end + start] == v@[k],
                    decreases v@.len() - m,
                {
                    out.push(v[m]);
                    m = m + 1;
                }
                proof {
                    assert(out@ =~= v@.subrange(0, start as int) + v@.subrange(
                        end as int,
                        v@.len() as int,
                    ));
                }
                *v = out;
            },
        }
    }

    /// Empties the text, keeping the storage mode.
    pub fn clear(&mut self)
        ensures
            final(self).chars() == Seq::<char>::empty(),
            final(self).is_long() == old(self).is_long(),
    {
        match &mut self.inner {
            TextInner::Long(rope) => {
                let fresh = rope_new();
                *rope = fresh;
            },
            TextInner::Short(v) => {
                *v = Vec::new();
            },
        }
    }
}

} // verus!
