//! The alternate bases of a variant record (`ALT`): alleles separated by commas.

use vstd::prelude::*;

use super::allele::{is_allele_text, Allele};

verus! {

/// The pieces of `s` between commas, in order; a text without commas is one piece.
pub open spec fn split_commas(s: Seq<char>) -> Seq<Seq<char>>
    decreases s.len(),
{
    if s.len() == 0 {
        seq![Seq::empty()]
    } else {
        let init = split_commas(s.drop_last());
        if s.last() == ',' {
            init.push(Seq::empty())
        } else {
            init.update(init.len() - 1, init.last().push(s.last()))
        }
    }
}

/// Whether `pieces[j]` is the first piece that is not an allele.
pub open spec fn first_bad_piece(pieces: Seq<Seq<char>>, j: int) -> bool {
    &&& 0 <= j < pieces.len()
    &&& !is_allele_text(pieces[j])
    &&& forall|k: int| 0 <= k < j ==> is_allele_text(#[trigger] pieces[k])
}

proof fn lemma_split_len(s: Seq<char>)
    ensures
        split_commas(s).len() >= 1,
    decreases s.len(),
{
    if s.len() > 0 {
        lemma_split_len(s.drop_last());
    }
}

proof fn lemma_split_step(s: Seq<char>, i: int)
    requires
        0 <= i < s.len(),
    ensures
        split_commas(s.take(i)).len() >= 1,
        split_commas(s.take(i + 1)) == if s[i] == ',' {
            split_commas(s.take(i)).push(Seq::empty())
        } else {
            split_commas(s.take(i)).update(
                split_commas(s.take(i)).len() - 1,
                split_commas(s.take(i)).last().push(s[i]),
            )
        },
{
    lemma_split_len(s.take(i));
    assert(s.take(i + 1).drop_last() =~= s.take(i));
}

proof fn lemma_split_prefix(s: Seq<char>, i: int, j: int)
    requires
        0 <= i <= j <= s.len(),
    ensures
        split_commas(s.take(j)).len() >= split_commas(s.take(i)).len(),
        forall|k: int|
            0 <= k < split_commas(s.take(i)).len() - 1 ==> #[trigger] split_commas(s.take(j))[k]
                == split_commas(s.take(i))[k],
    decreases j - i,
{
    if i < j {
        lemma_split_prefix(s, i, j - 1);
        lemma_split_step(s, j - 1);
    }
}

/// A text that is not a list of alleles.
#[derive(Clone, Debug, PartialEq, Eq)]
pub struct ParseError(String);

impl View for ParseError {
    type V = Seq<char>;

    /// The text that could not be parsed.
    closed spec fn view(&self) -> Seq<char> {
        self.0@
    }
}

impl ParseError {
    /// A message that describes the error.
    pub fn to_string(&self) -> (r: String)
        ensures
            r@ == "invalid alternate bases: "@ + self@,
    {
        let mut s = String::from_str("invalid alternate bases: ");
        s.append(self.0.as_str());
        s
    }
}

/// The alternate alleles of a variant record.
#[derive(Clone, Debug, PartialEq, Eq)]
pub struct AlternateBases(Vec<Allele>);

impl View for AlternateBases {
    type V = Seq<Allele>;

    /// The alleles, in order.
    closed spec fn view(&self) -> Seq<Allele> {
        self.0@
    }
}

impl AlternateBases {
    /// Parses alternate bases as written in a record: `.` for none, else alleles
    /// separated by commas. An empty text fails with itself; otherwise the first
    /// piece that is not an allele fails with that piece.
    pub fn parse(s: &str) -> (r: Result<AlternateBases, ParseError>)
        ensures
            s@.len() == 0 ==> (r matches Err(e) && e@ == s@),
            s@ == seq!['.'] ==> (r matches Ok(a) && a@.len() == 0),
            s@.len() > 0 && s@ != seq!['.'] ==> {
                let pieces = split_commas(s@);
                &&& r is Ok <==> forall|k: int|
                    0 <= k < pieces.len() ==> is_allele_text(#[trigger] pieces[k])
                &&& r matches Ok(a) ==> a@.map_values(|x: Allele| x@) == pieces && forall|k: int|
                    0 <= k < a@.len() ==> (#[trigger] a@[k]).wf()
                &&& r matches Err(e) ==> exists|j: int|
                    first_bad_piece(pieces, j) && e@ == #[trigger] pieces[j]
            },
    {
        let n = s.unicode_len();
        if n == 0 {
            return Err(ParseError(s.to_owned()));
        }
        if n == 1 && s.get_char(0) == '.' {
            assert(s@ =~= seq!['.']);
            return Ok(AlternateBases(Vec::new()));
        }
        assert(s@ != seq!['.']);
        let mut alleles: Vec<Allele> = Vec::new();
        let mut start: usize = 0;
        let mut i: usize = 0;
        assert(s@.take(0) =~= Seq::<char>::empty());
        while i < n
            invariant
                n == s@.len(),
                start <= i <= n,
                split_commas(s@.take(i as int)).len() == alleles@.len() + 1,
                split_commas(s@.take(i as int)).last() == s@.subrange(start as int, i as int),
                forall|k: int|
                    0 <= k < alleles@.len() ==> (#[trigger] alleles@[k])@ == split_commas(
                        s@.take(i as int),
                    )[k] && alleles@[k].wf() && is_allele_text(split_commas(s@.take(i as int))[k]),
            decreases n - i,
        {
            proof {
                lemma_split_step(s@, i as int);
            }
            let ghost before = split_commas(s@.take(i as int));
            if s.get_char(i) == ',' {
                let piece = s.substring_char(start, i);
                match Allele::parse(piece) {
                    Some(a) => {
                        alleles.push(a);
                    },
                    None => {
                        proof {
                            let j = alleles@.len() as int;
                            lemma_split_prefix(s@, i + 1, n as int);
                            lemma_split_prefix(s@, i as int, n as int);
                            assert(s@.take(n as int) =~= s@);
                            assert(split_commas(s@)[j] == piece@);
                            assert forall|k: int| 0 <= k < j implies is_allele_text(
                                #[trigger] split_commas(s@)[k],
                            ) by {
                                assert(split_commas(s@)[k] == split_commas(s@.take(i as int))[k]);
                                assert(alleles@[k]@ == split_commas(s@.take(i as int))[k]);
                            }
                            assert(first_bad_piece(split_commas(s@), j));
                        }
                        return Err(ParseError(piece.to_owned()));
                    },
                }
                start = i + 1;
            }
            i += 1;
            assert(split_commas(s@.take(i as int)).last() =~= s@.subrange(
                start as int,
                i as int,
            ));
            assert forall|k: int| 0 <= k < alleles@.len() implies (#[trigger] alleles@[k])@
                == split_commas(s@.take(i as int))[k] && alleles@[k].wf() && is_allele_text(
                split_commas(s@.take(i as int))[k],
            ) by {
                if k < before.len() - 1 {
                    assert(split_commas(s@.take(i as int))[k] == before[k]);
                }
            }
        }
        assert(s@.take(n as int) =~= s@);
        let piece = s.substring_char(start, n);
        match Allele::parse(piece) {
            Some(a) => {
                alleles.push(a);
                let r = AlternateBases(alleles);
                assert(r@.map_values(|x: Allele| x@) =~= split_commas(s@));
                Ok(r)
            },
            None => {
                assert forall|k: int| 0 <= k < alleles@.len() implies is_allele_text(
                    #[trigger] split_commas(s@)[k],
                ) by {
                    assert(alleles@[k]@ == split_commas(s@.take(n as int))[k]);
                }
                assert(first_bad_piece(split_commas(s@), alleles@.len() as int));
                Err(ParseError(piece.to_owned()))
            },
        }
    }

    /// Returns the number of alleles.
    pub fn len(&self) -> (r: usize)
        ensures
            r == self@.len(),
    {
        self.0.len()
    }

    /// Whether there are no alleles.
    pub fn is_empty(&self) -> (r: bool)
        ensures
            r == (self@.len() == 0),
    {
        self.0.len() == 0
    }

    /// Returns the alleles.
    pub fn as_slice(&self) -> (r: &[Allele])
        ensures
            r@ == self@,
    {
        self.0.as_slice()
    }
}

impl Default for AlternateBases {
    fn default() -> (r: Self)
        ensures
            r@.len() == 0,
    {
        AlternateBases(Vec::new())
    }
}

impl std::str::FromStr for AlternateBases {
    type Err = ParseError;

    fn from_str(s: &str) -> Result<Self, Self::Err> {
        AlternateBases::parse(s)
    }
}

} // verus!
