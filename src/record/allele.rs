//! A single alternate allele of a variant record.

use vstd::prelude::*;

verus! {

/// A nucleotide base.
#[derive(Clone, Copy, Debug, PartialEq, Eq, Structural)]
pub enum Base {
    /// Adenine.
    A,
    /// Cytosine.
    C,
    /// Guanine.
    G,
    /// Thymine.
    T,
    /// Any base.
    N,
}

/// Whether a character names a base.
pub open spec fn is_base_char(c: char) -> bool {
    c == 'A' || c == 'C' || c == 'G' || c == 'T' || c == 'N'
}

impl Base {
    /// The character that names the base.
    pub open spec fn spec_char(self) -> char {
        match self {
            Base::A => 'A',
            Base::C => 'C',
            Base::G => 'G',
            Base::T => 'T',
            Base::N => 'N',
        }
    }

    /// The base that a character names, if any.
    pub fn from_char(c: char) -> (r: Option<Base>)
        ensures
            r is Some <==> is_base_char(c),
            r matches Some(b) ==> b.spec_char() == c,
    {
        match c {
            'A' => Some(Base::A),
            'C' => Some(Base::C),
            'G' => Some(Base::G),
            'T' => Some(Base::T),
            'N' => Some(Base::N),
            _ => None,
        }
    }
}

/// Whether the text is a symbolic allele: an ID in angle brackets.
pub open spec fn is_symbol_text(p: Seq<char>) -> bool {
    p.len() >= 3 && p[0] == '<' && p.last() == '>'
}

/// Whether the text holds a square bracket, which marks a breakend.
pub open spec fn has_bracket(p: Seq<char>) -> bool {
    exists|i: int| 0 <= i < p.len() && (p[i] == '[' || p[i] == ']')
}

/// Whether the text is a non-empty run of bases.
pub open spec fn is_bases_text(p: Seq<char>) -> bool {
    p.len() > 0 && forall|i: int| 0 <= i < p.len() ==> is_base_char(#[trigger] p[i])
}

/// Whether the text is an allele: `*`, a symbol in angle brackets, a breakend, or
/// a run of bases.
pub open spec fn is_allele_text(p: Seq<char>) -> bool {
    if p.len() == 0 {
        false
    } else if p == seq!['*'] {
        true
    } else if p[0] == '<' {
        is_symbol_text(p)
    } else {
        has_bracket(p) || is_bases_text(p)
    }
}

/// An alternate allele.
#[derive(Clone, Debug, PartialEq, Eq)]
pub enum Allele {
    /// A run of bases.
    Bases(Vec<Base>),
    /// A symbolic allele, held without its angle brackets.
    Symbol(String),
    /// A breakend, held as written.
    Breakend(String),
    /// An allele missing because of an upstream deletion (`*`).
    OverlappingDeletion,
}

impl View for Allele {
    type V = Seq<char>;

    /// The allele as written in a record.
    open spec fn view(&self) -> Seq<char> {
        match self {
            Allele::Bases(bases) => bases@.map_values(|b: Base| b.spec_char()),
            Allele::Symbol(id) => seq!['<'] + id@ + seq!['>'],
            Allele::Breakend(text) => text@,
            Allele::OverlappingDeletion => seq!['*'],
        }
    }
}

impl Allele {
    /// The variant agrees with how its text reads: bases are not empty, and a
    /// breakend holds a bracket and does not start with `<`.
    pub open spec fn wf(&self) -> bool {
        match self {
            Allele::Bases(bases) => bases@.len() > 0,
            Allele::Symbol(_) => true,
            Allele::Breakend(text) => text@.len() > 0 && text@[0] != '<' && has_bracket(text@),
            Allele::OverlappingDeletion => true,
        }
    }

    /// Parses an allele as written in a record.
    pub fn parse(s: &str) -> (r: Option<Allele>)
        ensures
            r is Some <==> is_allele_text(s@),
            r matches Some(a) ==> a.wf() && a@ == s@,
    {
        let n = s.unicode_len();
        if n == 0 {
            return None;
        }
        let first = s.get_char(0);
        if n == 1 && first == '*' {
            assert(s@ =~= seq!['*']);
            return Some(Allele::OverlappingDeletion);
        }
        assert(s@ != seq!['*']);
        if first == '<' {
            if n >= 3 && s.get_char(n - 1) == '>' {
                let id = s.substring_char(1, n - 1).to_owned();
                assert(seq!['<'] + id@ + seq!['>'] =~= s@);
                return Some(Allele::Symbol(id));
            }
            return None;
        }
        let mut i: usize = 0;
        while i < n
            invariant
                n == s@.len(),
                i <= n,
                n > 0,
                s@ != seq!['*'],
                s@[0] != '<',
                forall|k: int| 0 <= k < i ==> s@[k] != '[' && s@[k] != ']',
            decreases n - i,
        {
            let c = s.get_char(i);
            if c == '[' || c == ']' {
                assert(has_bracket(s@)) by {
                    assert(0 <= i < s@.len() && (s@[i as int] == '[' || s@[i as int] == ']'));
                }
                return Some(Allele::Breakend(s.to_owned()));
            }
            i += 1;
        }
        let mut bases: Vec<Base> = Vec::new();
        let mut j: usize = 0;
        while j < n
            invariant
                n == s@.len(),
                j <= n,
                bases@.len() == j,
                !has_bracket(s@),
                s@ != seq!['*'],
                s@[0] != '<',
                bases@.map_values(|b: Base| b.spec_char()) == s@.take(j as int),
                forall|k: int| 0 <= k < j ==> is_base_char(#[trigger] s@[k]),
            decreases n - j,
        {
            match Base::from_char(s.get_char(j)) {
                Some(b) => {
                    bases.push(b);
                    j += 1;
                    assert(bases@.map_values(|b: Base| b.spec_char()) =~= s@.take(j as int));
                },
                None => {
                    assert(!is_bases_text(s@)) by {
                        assert(!is_base_char(s@[j as int]));
                    }
                    return None;
                },
            }
        }
        assert(s@.take(n as int) =~= s@);
        Some(Allele::Bases(bases))
    }
}

} // verus!
