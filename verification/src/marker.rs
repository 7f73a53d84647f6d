//! The persisted sync-state marker, `{"build": <string>}`, as bytes.
//!
//! The marker is the one piece of state this tool writes, so the library
//! owns its wire form: [`render_marker`] produces the compact JSON object
//! naming a build id, and [`parse_marker`] reads one back. The renderer
//! escapes quotes, backslashes and control bytes; the parser additionally
//! accepts the short escapes (`\b`, `\t`, `\n`, `\f`, `\r`, `\/`) and any
//! `\uXXXX` escape below 0x80, which covers every marker an earlier run
//! can have written. Parsing what was rendered returns the original build
//! id exactly ([`lemma_marker_round_trip`]).

use vstd::prelude::*;

verus! {

pub const QUOTE: u8 = 34;

pub const BACKSLASH: u8 = 92;

/// The ASCII hex digit for `n` (lower case).
pub open spec fn hex_digit(n: u8) -> u8 {
    if n < 10 {
        (48 + n) as u8
    } else {
        (87 + n) as u8
    }
}

/// The value of an ASCII hex digit, 16 marking a non-digit.
pub open spec fn hex_val(b: u8) -> u8 {
    if 48 <= b <= 57 {
        (b - 48) as u8
    } else if 97 <= b <= 102 {
        (b - 87) as u8
    } else if 65 <= b <= 70 {
        (b - 55) as u8
    } else {
        16
    }
}

/// How one byte of a build id appears inside the JSON string.
pub open spec fn escape_byte(b: u8) -> Seq<u8> {
    if b == QUOTE {
        seq![BACKSLASH, QUOTE]
    } else if b == BACKSLASH {
        seq![BACKSLASH, BACKSLASH]
    } else if b < 32 {
        seq![BACKSLASH, 117u8, 48u8, 48u8, hex_digit(b / 16), hex_digit(b % 16)]
    } else {
        seq![b]
    }
}

/// The escaped form of a whole build id.
pub open spec fn escape_bytes(s: Seq<u8>) -> Seq<u8>
    decreases s.len(),
{
    if s.len() == 0 {
        Seq::<u8>::empty()
    } else {
        escape_byte(s.first()) + escape_bytes(s.drop_first())
    }
}

/// Escaping a concatenation escapes the parts.
pub proof fn lemma_escape_append(a: Seq<u8>, b: Seq<u8>)
    ensures
        escape_bytes(a + b) == escape_bytes(a) + escape_bytes(b),
    decreases a.len(),
{
    if a.len() == 0 {
        assert(a + b =~= b);
        assert(escape_bytes(a) + escape_bytes(b) =~= escape_bytes(b));
    } else {
        assert((a + b).drop_first() =~= a.drop_first() + b);
        lemma_escape_append(a.drop_first(), b);
        assert(escape_bytes(a + b) =~= escape_bytes(a) + escape_bytes(b));
    }
}

/// The opening bytes of a marker: `{"build":"`.
pub open spec fn marker_prefix() -> Seq<u8> {
    seq![123u8, 34u8, 98u8, 117u8, 105u8, 108u8, 100u8, 34u8, 58u8, 34u8]
}

/// The marker naming the build id whose UTF-8 bytes are `build`:
/// `{"build":"<escaped id>"}`.
pub open spec fn marker_bytes(build: Seq<u8>) -> Seq<u8> {
    marker_prefix() + escape_bytes(build) + seq![QUOTE, 125u8]
}

/// Parses the body of a JSON string up to its closing quote; yields the
/// decoded bytes and whatever follows the closing quote.
pub open spec fn parse_string_body(s: Seq<u8>) -> Option<(Seq<u8>, Seq<u8>)>
    decreases s.len(),
{
    if s.len() == 0 {
        Option::None
    } else if s.first() == QUOTE {
        Option::Some((Seq::<u8>::empty(), s.drop_first()))
    } else if s.first() == BACKSLASH {
        if s.len() < 2 {
            Option::None
        } else {
            let e = s[1];
            let decoded: Option<u8> = if e == QUOTE || e == BACKSLASH || e == 47 {
                Option::Some(e)
            } else if e == 98 {
                Option::Some(8u8)
            } else if e == 116 {
                Option::Some(9u8)
            } else if e == 110 {
                Option::Some(10u8)
            } else if e == 102 {
                Option::Some(12u8)
            } else if e == 114 {
                Option::Some(13u8)
            } else {
                Option::None
            };
            match decoded {
                Option::Some(d) => match parse_string_body(s.skip(2)) {
                    Option::Some(p) => Option::Some((seq![d] + p.0, p.1)),
                    Option::None => Option::None,
                },
                Option::None => {
                    if e == 117 && s.len() >= 6 && hex_val(s[2]) < 16 && hex_val(s[3]) < 16
                        && hex_val(s[4]) < 16 && hex_val(s[5]) < 16 && hex_val(s[2]) == 0
                        && hex_val(s[3]) == 0 && hex_val(s[4]) < 8 {
                        let v = (hex_val(s[4]) * 16 + hex_val(s[5])) as u8;
                        match parse_string_body(s.skip(6)) {
                            Option::Some(p) => Option::Some((seq![v] + p.0, p.1)),
                            Option::None => Option::None,
                        }
                    } else {
                        Option::None
                    }
                },
            }
        }
    } else if s.first() < 32 {
        Option::None
    } else {
        match parse_string_body(s.drop_first()) {
            Option::Some(p) => Option::Some((seq![s.first()] + p.0, p.1)),
            Option::None => Option::None,
        }
    }
}

/// Parses a complete marker; yields the named build id's UTF-8 bytes.
pub open spec fn parse_marker_spec(s: Seq<u8>) -> Option<Seq<u8>> {
    if s.len() < 10 || s.take(10) != marker_prefix() {
        Option::None
    } else {
        match parse_string_body(s.skip(10)) {
            Option::Some(p) => {
                if p.1 == seq![125u8] {
                    Option::Some(p.0)
                } else {
                    Option::None
                }
            },
            Option::None => Option::None,
        }
    }
}

/// Decoding inverts escaping: the string body made of the escaped build
/// id, its closing quote and a tail parses back to the id and the tail.
pub proof fn lemma_body_round_trip(build: Seq<u8>, rest: Seq<u8>)
    ensures
        parse_string_body(escape_bytes(build) + seq![QUOTE] + rest) == Option::Some(
            (build, rest),
        ),
    decreases build.len(),
{
    let s = escape_bytes(build) + seq![QUOTE] + rest;
    if build.len() == 0 {
        assert(s =~= seq![QUOTE] + rest);
        assert(s.first() == QUOTE);
        assert(s.drop_first() =~= rest);
        assert(parse_string_body(s) == Option::Some((Seq::<u8>::empty(), rest)));
        assert(Seq::<u8>::empty() =~= build);
    } else {
        let b = build.first();
        let tail = build.drop_first();
        lemma_body_round_trip(tail, rest);
        let inner = escape_bytes(tail) + seq![QUOTE] + rest;
        assert(s =~= escape_byte(b) + inner);
        if b == QUOTE || b == BACKSLASH {
            assert(s.len() >= 2 && s.first() == BACKSLASH && s[1] == b);
            assert(s.skip(2) =~= inner);
            assert(seq![b] + tail =~= build);
        } else if b < 32 {
            assert(s.first() == BACKSLASH && s[1] == 117u8);
            assert(s.len() >= 6);
            assert(s[2] == 48u8 && s[3] == 48u8);
            assert(s[4] == hex_digit(b / 16) && s[5] == hex_digit(b % 16));
            assert(hex_val(hex_digit(b / 16)) == b / 16 && hex_val(hex_digit(b % 16)) == b % 16);
            assert(b / 16 < 8);
            assert((b / 16) * 16 + b % 16 == b);
            assert(s.skip(6) =~= inner);
            assert(seq![b] + tail =~= build);
        } else {
            assert(s.first() == b && b != QUOTE && b != BACKSLASH && b >= 32);
            assert(s.drop_first() =~= inner);
            assert(seq![b] + tail =~= build);
        }
    }
}

/// Parsing a rendered marker returns the build id it named.
pub proof fn lemma_marker_round_trip(build: Seq<u8>)
    ensures
        parse_marker_spec(marker_bytes(build)) == Option::Some(build),
{
    let s = marker_bytes(build);
    assert(s.take(10) =~= marker_prefix());
    assert(s.skip(10) =~= escape_bytes(build) + seq![QUOTE] + seq![125u8]);
    lemma_body_round_trip(build, seq![125u8]);
}

/// The ASCII hex digit for `n` (lower case).
fn hex_digit_x(n: u8) -> (r: u8)
    requires
        n < 16,
    ensures
        r == hex_digit(n),
{
    if n < 10 {
        48 + n
    } else {
        87 + n
    }
}

/// The value of an ASCII hex digit, 16 marking a non-digit.
fn hex_val_x(b: u8) -> (r: u8)
    ensures
        r == hex_val(b),
{
    if 48 <= b && b <= 57 {
        b - 48
    } else if 97 <= b && b <= 102 {
        b - 87
    } else if 65 <= b && b <= 70 {
        b - 55
    } else {
        16
    }
}

/// Renders the marker naming `build`: compact JSON, quotes, backslashes
/// and control bytes escaped.
pub fn render_marker(build: &String) -> (r: Vec<u8>)
    ensures
        r@ == marker_bytes(vstd::utf8::encode_utf8(build@)),
{
    let bs = build.as_str().as_bytes();
    let mut out: Vec<u8> = Vec::new();
    out.push(123);
    out.push(34);
    out.push(98);
    out.push(117);
    out.push(105);
    out.push(108);
    out.push(100);
    out.push(34);
    out.push(58);
    out.push(34);
    proof {
        assert(out@ =~= marker_prefix());
        assert(bs@.take(0) =~= Seq::<u8>::empty());
        assert(out@ =~= marker_prefix() + escape_bytes(bs@.take(0)));
    }
    let mut i: usize = 0;
    while i < bs.len()
        invariant
            0 <= i <= bs@.len(),
            out@ == marker_prefix() + escape_bytes(bs@.take(i as int)),
        decreases bs@.len() - i,
    {
        let b = bs[i];
        if b == QUOTE || b == BACKSLASH {
            out.push(BACKSLASH);
            out.push(b);
        } else if b < 32 {
            out.push(BACKSLASH);
            out.push(117);
            out.push(48);
            out.push(48);
            out.push(hex_digit_x(b / 16));
            out.push(hex_digit_x(b % 16));
        } else {
            out.push(b);
        }
        proof {
            assert(bs@.take(i + 1).drop_last() =~= bs@.take(i as int));
            lemma_escape_append(bs@.take(i as int), seq![b]);
            assert(bs@.take(i + 1) =~= bs@.take(i as int) + seq![b]);
            assert(seq![b].drop_first() =~= Seq::<u8>::empty());
            assert(seq![b].first() == b);
            assert(escape_bytes(Seq::<u8>::empty()) == Seq::<u8>::empty());
            assert(escape_bytes(seq![b]) == escape_byte(b) + Seq::<u8>::empty());
            assert(escape_byte(b) + Seq::<u8>::empty() =~= escape_byte(b));
            assert(out@ =~= marker_prefix() + escape_bytes(bs@.take(i + 1)));
        }
        i = i + 1;
    }
    out.push(QUOTE);
    out.push(125);
    proof {
        assert(bs@.take(bs@.len() as int) =~= bs@);
        assert(out@ =~= marker_bytes(bs@));
    }
    out
}

/// Parses a marker; `None` for anything that is not one.
pub fn parse_marker(s: &[u8]) -> (r: Option<Vec<u8>>)
    ensures
        match r {
            Option::Some(v) => parse_marker_spec(s@) == Option::Some(v@),
            Option::None => parse_marker_spec(s@) is None,
        },
{
    let mut prefix: Vec<u8> = Vec::new();
    prefix.push(123);
    prefix.push(34);
    prefix.push(98);
    prefix.push(117);
    prefix.push(105);
    prefix.push(108);
    prefix.push(100);
    prefix.push(34);
    prefix.push(58);
    prefix.push(34);
    proof {
        assert(prefix@ =~= marker_prefix());
    }
    if s.len() < 10 {
        return Option::None;
    }
    let mut j: usize = 0;
    while j < 10
        invariant
            0 <= j <= 10,
            s@.len() >= 10,
            prefix@ == marker_prefix(),
            forall|k: int| 0 <= k < j ==> s@[k] == marker_prefix()[k],
        decreases 10 - j,
    {
        if s[j] != prefix[j] {
            proof {
                assert(s@.take(10)[j as int] != marker_prefix()[j as int]);
            }
            return Option::None;
        }
        j = j + 1;
    }
    proof {
        assert(s@.take(10) =~= marker_prefix());
    }
    let ghost body = s@.skip(10);
    let mut out: Vec<u8> = Vec::new();
    let mut i: usize = 10;
    loop
        invariant
            10 <= i <= s@.len(),
            s@.len() >= 10,
            s@.take(10) == marker_prefix(),
            body == s@.skip(10),
            ({
                let here = parse_string_body(s@.skip(i as int));
                parse_string_body(body) == match here {
                    Option::Some(p) => Option::Some::<(Seq<u8>, Seq<u8>)>((out@ + p.0, p.1)),
                    Option::None => Option::None::<(Seq<u8>, Seq<u8>)>,
                }
            }),
        decreases s@.len() - i,
    {
        let ghost cur = s@.skip(i as int);
        if i >= s.len() {
            assert(parse_string_body(cur) is None);
            return Option::None;
        }
        let b = s[i];
        assert(cur.first() == b);
        if b == QUOTE {
            proof {
                assert(cur.drop_first() =~= s@.skip(i + 1));
                assert(out@ + Seq::<u8>::empty() =~= out@);
            }
            if s.len() - i == 2 && s[i + 1] == 125 {
                proof {
                    assert(s@.skip(i + 1) =~= seq![125u8]);
                }
                return Option::Some(out);
            } else {
                proof {
                    if s@.skip(i + 1) == seq![125u8] {
                        assert(s@.skip(i + 1).len() == 1);
                        assert(s@.skip(i + 1)[0] == s@[i + 1]);
                        assert(s@[i + 1] == 125);
                    }
                }
                return Option::None;
            }
        } else if b == BACKSLASH {
            if i + 1 >= s.len() {
                assert(cur.len() < 2);
                return Option::None;
            }
            let e = s[i + 1];
            assert(cur[1] == e);
            if e == QUOTE || e == BACKSLASH || e == 47 {
                out.push(e);
                proof {
                    assert(cur.skip(2) =~= s@.skip(i + 2));
                    assert forall|p0: Seq<u8>| true implies out@ + p0 =~= (out@.drop_last()
                        + (seq![e] + p0)) by {
                        assert(out@.drop_last() + (seq![e] + p0) =~= out@ + p0);
                    }
                }
                i = i + 2;
            } else if e == 98 || e == 116 || e == 110 || e == 102 || e == 114 {
                let d: u8 = if e == 98 {
                    8
                } else if e == 116 {
                    9
                } else if e == 110 {
                    10
                } else if e == 102 {
                    12
                } else {
                    13
                };
                out.push(d);
                proof {
                    assert(cur.skip(2) =~= s@.skip(i + 2));
                    assert forall|p0: Seq<u8>| true implies out@ + p0 =~= (out@.drop_last()
                        + (seq![d] + p0)) by {
                        assert(out@.drop_last() + (seq![d] + p0) =~= out@ + p0);
                    }
                }
                i = i + 2;
            } else if e == 117 {
                if s.len() - i < 6 {
                    assert(cur.len() < 6);
                    return Option::None;
                }
                assert(cur.len() >= 6);
                assert(cur[2] == s@[i + 2] && cur[3] == s@[i + 3] && cur[4] == s@[i + 4]
                    && cur[5] == s@[i + 5]);
                let h2 = hex_val_x(s[i + 2]);
                let h3 = hex_val_x(s[i + 3]);
                let h4 = hex_val_x(s[i + 4]);
                let h5 = hex_val_x(s[i + 5]);
                if h2 == 0 && h3 == 0 && h4 < 8 && h5 < 16 {
                    let v: u8 = h4 * 16 + h5;
                    out.push(v);
                    proof {
                        assert(cur.skip(6) =~= s@.skip(i + 6));
                        assert forall|p0: Seq<u8>| true implies out@ + p0 =~= (out@.drop_last()
                            + (seq![v] + p0)) by {
                            assert(out@.drop_last() + (seq![v] + p0) =~= out@ + p0);
                        }
                    }
                    i = i + 6;
                } else {
                    assert(parse_string_body(cur) is None);
                    return Option::None;
                }
            } else {
                assert(parse_string_body(cur) is None);
                return Option::None;
            }
        } else if b < 32 {
            assert(parse_string_body(cur) is None);
            return Option::None;
        } else {
            out.push(b);
            proof {
                assert(cur.drop_first() =~= s@.skip(i + 1));
                assert forall|p0: Seq<u8>| true implies out@ + p0 =~= (out@.drop_last()
                    + (seq![b] + p0)) by {
                    assert(out@.drop_last() + (seq![b] + p0) =~= out@ + p0);
                }
            }
            i = i + 1;
        }
    }
}

} // verus!
