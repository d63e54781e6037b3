//! Loading a whole catalogue text: the bytes are split into lines as a
//! text file is, each line is read in order, skipped lines leave no
//! trace, and the first malformed required field ends the load with
//! its error — no partial list is ever returned.

use vstd::prelude::*;
use vstd::slice::slice_to_vec;
use crate::numeric::{find_byte, lemma_find_byte};
use crate::record::{StarRecord, CatalogueError};
use crate::parser::{spec_parse_line, parse_catalogue_line};

verus! {

pub const BYTE_LF: u8 = 10;

pub const BYTE_CR: u8 = 13;

/// One line's bytes with a trailing carriage return removed, as a
/// text-file line ending of either kind leaves them.
pub open spec fn strip_cr(s: Seq<u8>) -> Seq<u8> {
    if s.len() > 0 && s.last() == BYTE_CR {
        s.drop_last()
    } else {
        s
    }
}

/// The lines of a text: split at every newline byte, each piece with a
/// carriage return before the newline removed, and no empty final line
/// when the text ends with a newline.
pub open spec fn spec_lines(t: Seq<u8>) -> Seq<Seq<u8>>
    decreases t.len(),
{
    if t.len() == 0 {
        Seq::empty()
    } else {
        match find_byte(t, BYTE_LF) {
            None => seq![strip_cr(t)],
            Some(k0) => {
                // a found index always lies inside `t`; the clamp only
                // makes that plain to the termination check
                let k = if 0 <= k0 < t.len() {
                    k0
                } else {
                    0
                };
                seq![strip_cr(t.subrange(0, k))] + spec_lines(t.subrange(k + 1, t.len() as int))
            },
        }
    }
}

/// The records of a sequence of lines, in line order: the first
/// malformed required field ends the load with its error, and skipped
/// lines contribute nothing.
pub open spec fn spec_load(lines: Seq<Seq<u8>>) -> Result<Seq<StarRecord>, CatalogueError>
    decreases lines.len(),
{
    if lines.len() == 0 {
        Ok(Seq::empty())
    } else {
        match spec_parse_line(lines[0]) {
            Err(e) => Err(e),
            Ok(opt) => match spec_load(lines.subrange(1, lines.len() as int)) {
                Err(e) => Err(e),
                Ok(rest) => Ok(
                    match opt {
                        Some(r) => seq![r] + rest,
                        None => rest,
                    },
                ),
            },
        }
    }
}

/// View of a vector of byte lines as a sequence of byte sequences.
pub open spec fn lines_view(lines: Seq<Vec<u8>>) -> Seq<Seq<u8>> {
    lines.map_values(|v: Vec<u8>| v@)
}

/// Splits a text into its lines, exactly as `spec_lines` says.
pub fn split_lines(text: &[u8]) -> (lines: Vec<Vec<u8>>)
    ensures
        lines_view(lines@) == spec_lines(text@),
{
    let n = text.len();
    let mut lines: Vec<Vec<u8>> = Vec::new();
    let mut i: usize = 0;
    proof {
        assert(text@.subrange(0, n as int) =~= text@);
        assert(lines_view(lines@) + spec_lines(text@) =~= spec_lines(text@));
    }
    while i < n
        invariant
            0 <= i <= n,
            n == text@.len(),
            spec_lines(text@) == lines_view(lines@) + spec_lines(
                text@.subrange(i as int, n as int),
            ),
        decreases n - i,
    {
        let ghost rem = text@.subrange(i as int, n as int);
        proof {
            lemma_find_byte(rem, BYTE_LF);
            assert(forall|k: int| 0 <= k < rem.len() ==> rem[k] == text@[k + i]);
        }
        let mut j = i;
        while j < n && text[j] != BYTE_LF
            invariant
                i <= j <= n,
                n == text@.len(),
                forall|k: int| i <= k < j ==> text@[k] != BYTE_LF,
            decreases n - j,
        {
            j = j + 1;
        }
        proof {
            if j == n {
                assert(find_byte(rem, BYTE_LF) is None);
            } else {
                let jr = j - i as int;
                assert(rem[jr] == text@[j as int]);
                match find_byte(rem, BYTE_LF) {
                    None => {
                        assert(false);
                    },
                    Some(kk) => {
                        if kk < jr {
                            assert(rem[kk] == text@[kk + i]);
                            assert(false);
                        } else if kk > jr {
                            assert(rem[jr] != BYTE_LF);
                            assert(false);
                        }
                    },
                }
                assert(find_byte(rem, BYTE_LF) == Some(jr));
            }
        }
        let seg_end = if j > i && text[j - 1] == BYTE_CR {
            j - 1
        } else {
            j
        };
        let seg = slice_to_vec(&text[i..seg_end]);
        proof {
            let piece = if j == n {
                rem
            } else {
                rem.subrange(0, j - i as int)
            };
            assert(piece =~= text@.subrange(i as int, j as int));
            if j > i && text@[j - 1] == BYTE_CR {
                assert(piece.drop_last() =~= text@.subrange(i as int, seg_end as int));
            }
            assert(seg@ == strip_cr(piece));
        }
        let ghost lv_old = lines_view(lines@);
        lines.push(seg);
        let next = if j < n {
            j + 1
        } else {
            n
        };
        proof {
            let full = spec_lines(text@);
            let tail = text@.subrange(next as int, n as int);
            assert(lines_view(lines@) =~= lv_old + seq![seg@]);
            if j == n {
                assert(tail =~= Seq::<u8>::empty());
                assert(spec_lines(rem) =~= seq![strip_cr(rem)]);
                assert(spec_lines(tail) =~= Seq::<Seq<u8>>::empty());
                assert(full =~= lines_view(lines@) + spec_lines(tail));
            } else {
                assert(rem.subrange(j - i + 1, rem.len() as int) =~= tail);
                assert(spec_lines(rem) =~= seq![strip_cr(rem.subrange(0, j - i as int))]
                    + spec_lines(tail));
                assert(full =~= lines_view(lines@) + spec_lines(tail));
            }
        }
        i = next;
    }
    proof {
        assert(text@.subrange(n as int, n as int) =~= Seq::<u8>::empty());
        assert(lines_view(lines@) =~= spec_lines(text@));
    }
    lines
}

/// Loads a whole catalogue from the bytes of its text. `Ok` holds the
/// records of all fully valid lines in file order, with skipped lines
/// leaving nothing behind; `Err` is the error of the first line whose
/// required fields were malformed, and then no partial list is
/// returned.
pub fn load_catalogue(text: &[u8]) -> (r: Result<Vec<StarRecord>, CatalogueError>)
    ensures
        match r {
            Ok(v) => spec_load(spec_lines(text@)) == Ok::<Seq<StarRecord>, CatalogueError>(v@)
                && (forall|k: int| 0 <= k < v@.len() ==> v@[k].well_formed()),
            Err(e) => spec_load(spec_lines(text@)) == Err::<Seq<StarRecord>, CatalogueError>(e),
        },
{
    let lines = split_lines(text);
    let ghost full = spec_lines(text@);
    let mut out: Vec<StarRecord> = Vec::new();
    let mut i: usize = 0;
    proof {
        assert(full.subrange(0, full.len() as int) =~= full);
        assert(out@ + spec_load(full)->Ok_0 =~= spec_load(full)->Ok_0);
    }
    while i < lines.len()
        invariant
            0 <= i <= lines@.len(),
            lines_view(lines@) == full,
            full == spec_lines(text@),
            lines@.len() == full.len(),
            forall|k: int| 0 <= k < out@.len() ==> out@[k].well_formed(),
            spec_load(full) == (match spec_load(full.subrange(i as int, full.len() as int)) {
                Ok(rest) => Ok::<Seq<StarRecord>, CatalogueError>(out@ + rest),
                Err(e) => Err::<Seq<StarRecord>, CatalogueError>(e),
            }),
        decreases lines@.len() - i,
    {
        let ghost sub = full.subrange(i as int, full.len() as int);
        proof {
            assert(lines_view(lines@)[i as int] == lines@[i as int]@);
            assert(sub[0] == full[i as int]);
            assert(sub.subrange(1, sub.len() as int) =~= full.subrange(
                i + 1,
                full.len() as int,
            ));
        }
        match parse_catalogue_line(lines[i].as_slice()) {
            Err(e) => {
                return Err(e);
            },
            Ok(Some(rec)) => {
                let ghost out_old = out@;
                out.push(rec);
                proof {
                    let tail = full.subrange(i + 1, full.len() as int);
                    assert(out@ =~= out_old + seq![rec]);
                    if spec_load(tail) is Ok {
                        assert((out_old + seq![rec]) + spec_load(tail)->Ok_0 =~= out_old + (
                        seq![rec] + spec_load(tail)->Ok_0));
                    }
                }
            },
            Ok(None) => {},
        }
        i = i + 1;
    }
    proof {
        assert(full.subrange(full.len() as int, full.len() as int) =~= Seq::<Seq<u8>>::empty());
        assert(out@ + Seq::<StarRecord>::empty() =~= out@);
    }
    Ok(out)
}

} // verus!
