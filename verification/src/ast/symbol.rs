//! The table of names: each name of a program is held once, and an
//! identifier is the place of its name in the table.

use crate::ast::types::Ident;
use vstd::prelude::*;
use vstd::string::StringExecFns;

verus! {

/// The table of names.
pub struct Interner {
    pub names: Vec<String>,
}

/// The texts of a list of strings.
pub open spec fn texts(names: Seq<String>) -> Seq<Seq<char>> {
    Seq::new(names.len(), |i: int| names[i]@)
}

/// The place of the first text equal to `text` in `names`, or
/// `names.len()`.
pub open spec fn text_position(names: Seq<Seq<char>>, text: Seq<char>) -> nat
    decreases names.len(),
{
    if names.len() == 0 {
        0
    } else if names[0] == text {
        0
    } else {
        1 + text_position(names.drop_first(), text)
    }
}

/// The place that [`text_position`] gives is the first place of the text, if the text is held.
pub proof fn lemma_text_position(names: Seq<Seq<char>>, text: Seq<char>)
    ensures
        text_position(names, text) <= names.len(),
        text_position(names, text) < names.len() ==> names[text_position(names, text) as int]
            == text,
        forall|j: int| 0 <= j < text_position(names, text) ==> names[j] != text,
    decreases names.len(),
{
    if names.len() == 0 {
    } else if names[0] == text {
    } else {
        let rest = names.drop_first();
        lemma_text_position(rest, text);
        assert forall|j: int| 0 <= j < text_position(names, text) implies names[j] != text by {
            if j > 0 {
                assert(names[j] == rest[j - 1]);
            }
        }
        if text_position(names, text) < names.len() {
            assert(names[text_position(names, text) as int] == rest[text_position(rest, text) as int]);
        }
    }
}

impl View for Interner {
    type V = Seq<Seq<char>>;

    open spec fn view(&self) -> Seq<Seq<char>> {
        texts(self.names@)
    }
}

impl Interner {
    /// No name is held twice.
    pub open spec fn wf(self) -> bool {
        forall|i: int, j: int|
            0 <= i < j < self@.len() ==> (#[trigger] self@[i]) != (#[trigger] self@[j])
    }

    /// The text of the name `id`; the empty text for an identifier that the
    /// table does not hold.
    pub open spec fn text_of(self, id: Ident) -> Seq<char> {
        if id.id < self@.len() {
            self@[id.id as int]
        } else {
            Seq::empty()
        }
    }

    /// A table without names.
    pub fn new() -> (r: Self)
        ensures
            r.wf(),
            r@.len() == 0,
    {
        Interner { names: Vec::new() }
    }

    /// The identifier of the name `name`: the one it has, or a new one
    /// where the table does not hold the name yet. The names that the table
    /// holds keep their identifiers.
    pub fn intern(&mut self, name: String) -> (r: Ident)
        requires
            old(self).wf(),
        ensures
            final(self).wf(),
            r.id == text_position(old(self)@, name@),
            final(self)@ == (if text_position(old(self)@, name@) < old(self)@.len() {
                old(self)@
            } else {
                old(self)@.push(name@)
            }),
            final(self).text_of(r) == name@,
    {
        let ghost names = self@;
        let mut i: usize = 0;
        assert(names.subrange(0, names.len() as int) =~= names);
        while i < self.names.len()
            invariant
                i <= self.names.len(),
                self@ == names,
                *self == *old(self),
                old(self).wf(),
                text_position(names, name@) == i + text_position(
                    names.subrange(i as int, names.len() as int),
                    name@,
                ),
            decreases self.names.len() - i,
        {
            let ghost rest = names.subrange(i as int, names.len() as int);
            assert(rest[0] == names[i as int]);
            assert(names[i as int] == self.names@[i as int]@);
            if self.names[i] == name {
                return Ident { id: i };
            }
            assert(rest.drop_first() =~= names.subrange(i + 1, names.len() as int));
            i += 1;
        }
        proof {
            lemma_text_position(names, name@);
        }
        self.names.push(name);
        assert(self@ =~= names.push(name@));
        Ident { id: i }
    }

    /// `true` when no name is held twice; see [`Self::wf`].
    pub fn holds_each_once(&self) -> (r: bool)
        ensures
            r == self.wf(),
    {
        let mut j: usize = 0;
        while j < self.names.len()
            invariant
                j <= self.names.len(),
                forall|a: int, b: int| 0 <= a < b < j ==> (#[trigger] self@[a]) != (#[trigger] self@[b]),
            decreases self.names.len() - j,
        {
            let mut i: usize = 0;
            while i < j
                invariant
                    i <= j < self.names.len(),
                    forall|a: int| 0 <= a < i ==> (#[trigger] self@[a]) != self@[j as int],
                decreases j - i,
            {
                assert(self@[i as int] == self.names@[i as int]@);
                assert(self@[j as int] == self.names@[j as int]@);
                if self.names[i] == self.names[j] {
                    return false;
                }
                i += 1;
            }
            j += 1;
        }
        true
    }

    /// The name of the identifier `id`, if the table holds it.
    pub fn name(&self, id: Ident) -> (r: Option<&String>)
        ensures
            match r {
                Some(s) => id.id < self@.len() && s@ == self.text_of(id),
                None => id.id >= self@.len(),
            },
    {
        if id.id < self.names.len() {
            Some(&self.names[id.id])
        } else {
            None
        }
    }

    /// `true` when the name of `id` begins with an underscore.
    pub fn starts_with_underscore(&self, id: Ident) -> (r: bool)
        ensures
            r == (self.text_of(id).len() > 0 && self.text_of(id)[0] == '_'),
    {
        match self.name(id) {
            Some(s) => {
                let text = s.as_str();
                if text.unicode_len() > 0 {
                    text.get_char(0) == '_'
                } else {
                    false
                }
            },
            None => false,
        }
    }
}

} // verus!
