//! Report formatter: fixed-width columns, fixed column order.
//!
//! A report line holds the selected tallies in the fixed order lines, words,
//! chars, bytes — whatever order the flags were given in — each
//! right-justified to the resolved width and space-separated, followed by the
//! source's display name unless that name is empty.  The aggregate line uses
//! the display name `total`.

use vstd::prelude::*;
use vstd::string::StringExecFns;

use crate::config::Config;
use crate::counts::Counts;
use crate::counts::CountsModel;
use crate::width::dec_width;

verus! {

/// The character for one decimal digit.
pub open spec fn digit_char(d: nat) -> char
    recommends
        d < 10,
{
    if d == 0 {
        '0'
    } else if d == 1 {
        '1'
    } else if d == 2 {
        '2'
    } else if d == 3 {
        '3'
    } else if d == 4 {
        '4'
    } else if d == 5 {
        '5'
    } else if d == 6 {
        '6'
    } else if d == 7 {
        '7'
    } else if d == 8 {
        '8'
    } else {
        '9'
    }
}

/// The decimal digits of `n`, most significant first.
pub open spec fn digits(n: nat) -> Seq<char>
    decreases n,
{
    if n < 10 {
        seq![digit_char(n)]
    } else {
        digits(n / 10).push(digit_char(n % 10))
    }
}

/// `width` spaces.
pub open spec fn spaces(width: nat) -> Seq<char> {
    Seq::new(width, |i: int| ' ')
}

/// `n` right-justified to `width` columns: space padding, then the digits;
/// a number wider than the column is not truncated.
pub open spec fn padded(n: nat, width: nat) -> Seq<char> {
    if dec_width(n) >= width {
        digits(n)
    } else {
        spaces((width - dec_width(n)) as nat) + digits(n)
    }
}

/// The given parts joined by single spaces.
pub open spec fn join_spaced(parts: Seq<Seq<char>>) -> Seq<char>
    decreases parts.len(),
{
    if parts.len() == 0 {
        Seq::<char>::empty()
    } else if parts.len() == 1 {
        parts[0]
    } else {
        parts[0] + seq![' '] + join_spaced(parts.drop_first())
    }
}

/// The selected tallies as right-justified columns, in the fixed order
/// lines, words, chars, bytes.
pub open spec fn selected_columns(
    c: CountsModel,
    lines: bool,
    words: bool,
    chars: bool,
    bytes: bool,
    width: nat,
) -> Seq<Seq<char>> {
    (if lines {
        seq![padded(c.lines, width)]
    } else {
        Seq::<Seq<char>>::empty()
    }) + (if words {
        seq![padded(c.words, width)]
    } else {
        Seq::<Seq<char>>::empty()
    }) + (if chars {
        seq![padded(c.chars, width)]
    } else {
        Seq::<Seq<char>>::empty()
    }) + (if bytes {
        seq![padded(c.bytes, width)]
    } else {
        Seq::<Seq<char>>::empty()
    })
}

/// One whole report line: the selected columns, space-separated, then the
/// display name unless it is empty.
pub open spec fn line_model(
    c: CountsModel,
    name: Seq<char>,
    lines: bool,
    words: bool,
    chars: bool,
    bytes: bool,
    width: nat,
) -> Seq<char> {
    join_spaced(
        selected_columns(c, lines, words, chars, bytes, width) + (if name.len() > 0 {
            seq![name]
        } else {
            Seq::<Seq<char>>::empty()
        }),
    )
}

proof fn lemma_join_spaced_push(parts: Seq<Seq<char>>, part: Seq<char>)
    requires
        parts.len() >= 1,
    ensures
        join_spaced(parts.push(part)) == join_spaced(parts) + seq![' '] + part,
    decreases parts.len(),
{
    if parts.len() == 1 {
        reveal_with_fuel(join_spaced, 3);
        assert(parts.push(part)[0] == parts[0]);
        assert(parts.push(part).drop_first() =~= seq![part]);
    } else {
        assert(parts.push(part)[0] == parts[0]);
        assert(parts.push(part).drop_first() =~= parts.drop_first().push(part));
        lemma_join_spaced_push(parts.drop_first(), part);
        assert(join_spaced(parts.push(part)) == parts[0] + seq![' '] + join_spaced(
            parts.drop_first().push(part),
        ));
        assert((parts[0] + seq![' ']) + (join_spaced(parts.drop_first()) + seq![' '] + part) =~= (
        parts[0] + seq![' '] + join_spaced(parts.drop_first())) + seq![' '] + part);
    }
}

/// The string for one decimal digit.
fn digit_str(d: usize) -> (r: &'static str)
    requires
        d < 10,
    ensures
        r@ == seq![digit_char(d as nat)],
{
    if d == 0 {
        proof {
            reveal_strlit("0");
            assert("0"@ =~= seq![digit_char(0)]);
        }
        "0"
    } else if d == 1 {
        proof {
            reveal_strlit("1");
            assert("1"@ =~= seq![digit_char(1)]);
        }
        "1"
    } else if d == 2 {
        proof {
            reveal_strlit("2");
            assert("2"@ =~= seq![digit_char(2)]);
        }
        "2"
    } else if d == 3 {
        proof {
            reveal_strlit("3");
            assert("3"@ =~= seq![digit_char(3)]);
        }
        "3"
    } else if d == 4 {
        proof {
            reveal_strlit("4");
            assert("4"@ =~= seq![digit_char(4)]);
        }
        "4"
    } else if d == 5 {
        proof {
            reveal_strlit("5");
            assert("5"@ =~= seq![digit_char(5)]);
        }
        "5"
    } else if d == 6 {
        proof {
            reveal_strlit("6");
            assert("6"@ =~= seq![digit_char(6)]);
        }
        "6"
    } else if d == 7 {
        proof {
            reveal_strlit("7");
            assert("7"@ =~= seq![digit_char(7)]);
        }
        "7"
    } else if d == 8 {
        proof {
            reveal_strlit("8");
            assert("8"@ =~= seq![digit_char(8)]);
        }
        "8"
    } else {
        proof {
            reveal_strlit("9");
            assert("9"@ =~= seq![digit_char(9)]);
        }
        "9"
    }
}

/// Append the decimal digits of `n`, most significant first.
fn push_digits(s: &mut String, n: usize)
    ensures
        final(s)@ == old(s)@ + digits(n as nat),
    decreases n,
{
    if n >= 10 {
        push_digits(s, n / 10);
        s.append(digit_str(n % 10));
        proof {
            assert((old(s)@ + digits(n as nat / 10)) + seq![digit_char(n as nat % 10)] =~= old(
                s,
            )@ + digits(n as nat / 10).push(digit_char(n as nat % 10)));
        }
    } else {
        s.append(digit_str(n));
    }
}

/// Append `k` spaces.
fn push_spaces(s: &mut String, k: usize)
    ensures
        final(s)@ == old(s)@ + spaces(k as nat),
{
    proof {
        reveal_strlit(" ");
    }
    let mut i: usize = 0;
    while i < k
        invariant
            i <= k,
            " "@ == seq![' '],
            s@ == old(s)@ + spaces(i as nat),
        decreases k - i,
    {
        s.append(" ");
        proof {
            assert((old(s)@ + spaces(i as nat)) + seq![' '] =~= old(s)@ + spaces((i + 1) as nat));
        }
        i = i + 1;
    }
    proof {
        assert(old(s)@ + spaces(k as nat) =~= s@);
    }
}

/// One tally right-justified to `width` columns.
pub fn format_count(n: usize, width: usize) -> (r: String)
    ensures
        r@ == padded(n as nat, width as nat),
{
    let mut r = String::new();
    let dw = crate::width::decimal_width(n as u64);
    if dw < width {
        push_spaces(&mut r, width - dw);
    }
    push_digits(&mut r, n);
    proof {
        assert(Seq::<char>::empty() + digits(n as nat) =~= digits(n as nat));
        assert((Seq::<char>::empty() + spaces((width - dw) as nat)) + digits(n as nat)
            =~= spaces((width - dw) as nat) + digits(n as nat));
    }
    r
}

/// Render one report line for the tallies `count` of the source named
/// `name`, under the display selection of `cfg` and the resolved width.
pub fn format_line(count: &Counts, name: &str, cfg: &Config, width: usize) -> (r: String)
    ensures
        r@ == line_model(count@, name@, cfg.lines, cfg.words, cfg.chars, cfg.bytes, width as nat),
{
    let mut parts: Vec<String> = Vec::new();
    if cfg.lines {
        parts.push(format_count(count.lines, width));
    }
    if cfg.words {
        parts.push(format_count(count.words, width));
    }
    if cfg.chars {
        parts.push(format_count(count.chars, width));
    }
    if cfg.bytes {
        parts.push(format_count(count.bytes, width));
    }
    if !name.is_empty() {
        parts.push(name.to_owned());
    }
    let ghost pseq = parts@.map_values(|p: String| p@);
    proof {
        assert(pseq =~= selected_columns(
            count@,
            cfg.lines,
            cfg.words,
            cfg.chars,
            cfg.bytes,
            width as nat,
        ) + (if name@.len() > 0 {
            seq![name@]
        } else {
            Seq::<Seq<char>>::empty()
        }));
        reveal_strlit(" ");
    }
    let mut r = String::new();
    let mut i: usize = 0;
    while i < parts.len()
        invariant
            i <= parts@.len(),
            pseq == parts@.map_values(|p: String| p@),
            " "@ == seq![' '],
            r@ == join_spaced(pseq.take(i as int)),
        decreases parts@.len() - i,
    {
        if i > 0 {
            r.append(" ");
        }
        r.append(parts[i].as_str());
        proof {
            assert(pseq.take(i as int + 1) =~= pseq.take(i as int).push(pseq[i as int]));
            if i == 0 {
                assert(join_spaced(pseq.take(1)) == pseq[0]);
                assert(r@ =~= Seq::<char>::empty() + pseq[0]);
                assert(r@ == join_spaced(pseq.take(1)));
            } else {
                lemma_join_spaced_push(pseq.take(i as int), pseq[i as int]);
            }
        }
        i = i + 1;
    }
    proof {
        assert(pseq.take(parts@.len() as int) =~= pseq);
    }
    r
}

} // verus!
