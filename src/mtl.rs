//! Reassembly of material-library lines.
//!
//! A physical line that ends in the two-character continuation marker `\\`
//! is held back and joined with the line that follows it. Each complete
//! logical line is split at its first space into a keyword and a remainder.
use vstd::prelude::*;
use crate::text::{chars_of, same_text, trim, trimmed_bounds};

verus! {

/// What a logical line asks for, as told by its keyword.
#[derive(Clone, Copy, Debug, PartialEq, Eq, Structural)]
pub enum DirectiveKind {
    /// `newmtl`: a new material starts.
    NewMaterial,
    /// `map_Kd`: the diffuse texture map of the current material.
    DiffuseMap,
    /// Any other keyword.
    Other,
}

/// A complete logical line, split at its first space.
#[derive(Debug, PartialEq, Eq)]
pub struct Directive {
    pub kind: DirectiveKind,
    /// The text before the first space, without surrounding white space.
    pub keyword: String,
    /// The text after the first space; empty when the line has no space.
    pub rest: String,
}

/// The continuation marker: two backslashes.
pub open spec fn marker() -> Seq<char> {
    seq!['\\', '\\']
}

/// Whether `s` ends in the continuation marker.
pub open spec fn ends_with_marker(s: Seq<char>) -> bool {
    s.len() >= 2 && s[s.len() - 2] == '\\' && s[s.len() - 1] == '\\'
}

/// Whether `s` is held back rather than dispatched: it ends in the
/// continuation marker, or it is empty.
pub open spec fn is_continued(s: Seq<char>) -> bool {
    s.len() == 0 || ends_with_marker(s)
}

/// The fragment kept from a held-back line: the line without its marker.
pub open spec fn held_part(s: Seq<char>) -> Seq<char> {
    if ends_with_marker(s) {
        s.take(s.len() - 2)
    } else {
        Seq::empty()
    }
}

/// Position of the first space in `s`, or its length when it has none.
pub open spec fn first_space(s: Seq<char>) -> int
    decreases s.len(),
{
    if s.len() == 0 || s[0] == ' ' {
        0
    } else {
        1 + first_space(s.drop_first())
    }
}

pub open spec fn keyword_of(s: Seq<char>) -> Seq<char> {
    trim(s.take(first_space(s)))
}

pub open spec fn rest_of(s: Seq<char>) -> Seq<char> {
    if first_space(s) < s.len() {
        s.skip(first_space(s) + 1)
    } else {
        Seq::empty()
    }
}

pub open spec fn kind_of(keyword: Seq<char>) -> DirectiveKind {
    if keyword == "newmtl"@ {
        DirectiveKind::NewMaterial
    } else if keyword == "map_Kd"@ {
        DirectiveKind::DiffuseMap
    } else {
        DirectiveKind::Other
    }
}

/// `d` is the directive that the logical line `s` gives.
pub open spec fn describes(d: Directive, s: Seq<char>) -> bool {
    &&& d.keyword@ == keyword_of(s)
    &&& d.rest@ == rest_of(s)
    &&& d.kind == kind_of(keyword_of(s))
}

/// A line cut anywhere with the continuation marker is held back whole: the
/// fragment kept is exactly the text before the marker, so that the next
/// physical line continues it.
pub proof fn lemma_marker_holds_back(s: Seq<char>)
    ensures
        is_continued(s + marker()),
        held_part(s + marker()) == s,
{
    assert((s + marker()).take(s.len() as int) =~= s);
}

proof fn lemma_first_space(s: Seq<char>, i: int)
    requires
        0 <= i <= s.len(),
        forall|j: int| 0 <= j < i ==> #[trigger] s[j] != ' ',
        i == s.len() || s[i] == ' ',
    ensures
        first_space(s) == i,
    decreases i,
{
    if i > 0 {
        let t = s.drop_first();
        assert(s[0] != ' ');
        assert forall|j: int| 0 <= j < i - 1 implies #[trigger] t[j] != ' ' by {
            assert(t[j] == s[j + 1]);
        }
        lemma_first_space(t, i - 1);
    }
}

/// Splits a complete logical line into its directive.
pub fn directive(line: &str) -> (r: Directive)
    ensures
        describes(r, line@),
{
    let v = chars_of(line);
    let n: usize = v.len();
    let mut k: usize = 0;
    while k < n && v[k] != ' '
        invariant
            k <= n == v@.len(),
            v@ == line@,
            forall|j: int| 0 <= j < k ==> #[trigger] v@[j] != ' ',
        decreases n - k,
    {
        k = k + 1;
    }
    proof {
        lemma_first_space(line@, k as int);
    }
    let (a, b) = trimmed_bounds(&v, 0, k);
    let keyword = line.substring_char(a, b).to_owned();
    let rest = if k < n {
        line.substring_char(k + 1, n).to_owned()
    } else {
        String::new()
    };
    proof {
        assert(line@.take(k as int) =~= line@.subrange(0, k as int));
        assert(line@.skip(k + 1) =~= line@.subrange(k + 1, n as int));
    }
    let kind = if same_text(keyword.as_str(), "newmtl") {
        DirectiveKind::NewMaterial
    } else if same_text(keyword.as_str(), "map_Kd") {
        DirectiveKind::DiffuseMap
    } else {
        DirectiveKind::Other
    };
    Directive { kind, keyword, rest }
}

/// The state carried from one physical line to the next: the fragment held
/// back by a continuation marker, empty when nothing is held.
pub struct LineReassembler {
    pending: String,
}

impl View for LineReassembler {
    type V = Seq<char>;

    closed spec fn view(&self) -> Seq<char> {
        self.pending@
    }
}

impl LineReassembler {
    /// A reassembler at the start of a file, holding nothing.
    pub fn new() -> (r: LineReassembler)
        ensures
            r@ == Seq::<char>::empty(),
    {
        LineReassembler { pending: String::new() }
    }

    /// The fragment held back so far.
    pub fn pending(&self) -> (r: &str)
        ensures
            r@ == self@,
    {
        self.pending.as_str()
    }

    /// Takes the next physical line. The held fragment is put in front of it;
    /// if the result ends in the continuation marker (or is empty) it is held
    /// back without the marker and nothing is returned; otherwise it is a
    /// complete logical line, whose directive is returned.
    pub fn push_line(&mut self, line: &str) -> (r: Option<Directive>)
        ensures
            ({
                let text = old(self)@ + line@;
                if is_continued(text) {
                    r is None && final(self)@ == held_part(text)
                } else {
                    r is Some && describes(r->0, text) && final(self)@ == Seq::<char>::empty()
                }
            }),
    {
        let mut text = self.pending.clone();
        self.pending = String::new();
        text.append(line);
        let n: usize = text.as_str().unicode_len();
        if n == 0 {
            None
        } else if n >= 2 && text.as_str().get_char(n - 2) == '\\' && text.as_str().get_char(n - 1)
            == '\\' {
            self.pending = text.as_str().substring_char(0, n - 2).to_owned();
            None
        } else {
            Some(directive(text.as_str()))
        }
    }

    /// A physical line could not be read: the held fragment, if any, is
    /// dispatched as a complete logical line, and nothing is held after.
    pub fn read_failed(&mut self) -> (r: Option<Directive>)
        ensures
            old(self)@.len() == 0 ==> r is None,
            old(self)@.len() > 0 ==> r is Some && describes(r->0, old(self)@),
            final(self)@ == Seq::<char>::empty(),
    {
        let text = self.pending.clone();
        self.pending = String::new();
        if text.as_str().unicode_len() == 0 {
            None
        } else {
            Some(directive(text.as_str()))
        }
    }
}

} // verus!
