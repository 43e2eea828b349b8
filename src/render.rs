//! Structural debug rendering of a value, as a sequence of pieces.
//!
//! A `Float` is handed out as its bit pattern, to be written with the
//! platform's own shortest round-trip decimal form; everything else is text.
use vstd::prelude::*;
use crate::value::Json;

verus! {

/// One piece of a rendering.
#[derive(Clone, Debug, PartialEq, Eq)]
pub enum Piece {
    /// Text to be written as it is
    Text(String),
    /// A binary64 number, by its bit pattern, to be written in decimal
    Float(u64),
}

/// What a piece holds.
pub enum PieceView {
    Text(Seq<char>),
    Float(u64),
}

impl View for Piece {
    type V = PieceView;

    open spec fn view(&self) -> PieceView {
        match self {
            Piece::Text(s) => PieceView::Text(s@),
            Piece::Float(b) => PieceView::Float(*b),
        }
    }
}

/// The views of a sequence of pieces.
pub open spec fn pieces_view(p: Seq<Piece>) -> Seq<PieceView> {
    p.map_values(|x: Piece| x@)
}

/// A double-quoted, escaped string literal for the given text, as std's
/// `Debug` for `str` writes it.
pub uninterp spec fn quoted(s: Seq<char>) -> Seq<char>;

/// Relies on std's `Debug` for `str`: the text quoted and escaped, a function
/// of the characters alone.
#[verifier::external_body]
fn quote_str(s: &str) -> (r: String)
    ensures
        r@ == quoted(s@),
{
    format!("{:?}", s)
}

/// Relies on std's `Display` for `i64` (through `ToString`): the plain decimal
/// form, `-` before a negative number, no leading zeros.
#[verifier::external_body]
fn int_to_decimal(n: i64) -> (r: String)
    ensures
        r@ == decimal(n as int),
{
    n.to_string()
}

/// The decimal digit for `d < 10`.
pub open spec fn digit_char(d: nat) -> char {
    (('0' as nat) + d) as char
}

/// The decimal digits of `n`, without leading zeros.
pub open spec fn digits(n: nat) -> Seq<char>
    decreases n,
{
    if n < 10 {
        seq![digit_char(n)]
    } else {
        digits(n / 10).push(digit_char(n % 10))
    }
}

/// The decimal form of an integer, with a leading `-` when it is negative.
pub open spec fn decimal(n: int) -> Seq<char> {
    if n < 0 {
        seq!['-'] + digits((-n) as nat)
    } else {
        digits(n as nat)
    }
}

/// A single text piece.
pub open spec fn text(s: Seq<char>) -> Seq<PieceView> {
    seq![PieceView::Text(s)]
}

/// The parts, in order, with `sep` between each two neighbours.
pub open spec fn join(parts: Seq<Seq<PieceView>>, sep: Seq<PieceView>) -> Seq<PieceView>
    decreases parts.len(),
{
    if parts.len() == 0 {
        seq![]
    } else if parts.len() == 1 {
        parts[0]
    } else {
        join(parts.drop_last(), sep) + sep + parts.last()
    }
}

/// The rendering of a value: `null`, `true`/`false`, numbers in decimal,
/// strings quoted, arrays as `[a, b]` and objects as `{ "k": v, "l": w }`.
pub open spec fn render(v: Json) -> Seq<PieceView>
    decreases v,
{
    match v {
        Json::Null(_) => text(seq!['n', 'u', 'l', 'l']),
        Json::Bool(b) => if b {
            text(seq!['t', 'r', 'u', 'e'])
        } else {
            text(seq!['f', 'a', 'l', 's', 'e'])
        },
        Json::Float(f) => seq![PieceView::Float(f)],
        Json::Int(n) => text(decimal(n as int)),
        Json::Str(s) => text(quoted(s@)),
        Json::Array(a) => text(seq!['[']) + join(render_elements(a@), text(seq![',', ' '])) + text(
            seq![']'],
        ),
        Json::Object(o) => text(seq!['{']) + join(render_entries(o@), text(seq![','])) + text(
            seq![' ', '}'],
        ),
    }
}

/// The rendering of each element, in order.
pub open spec fn render_elements(s: Seq<Json>) -> Seq<Seq<PieceView>>
    decreases s,
{
    Seq::new(
        s.len(),
        |i: int|
            if 0 <= i < s.len() {
                render(s[i])
            } else {
                seq![]
            },
    )
}

/// The rendering of each entry, in order: a space, the quoted key, a colon,
/// a space and the rendered value.
pub open spec fn render_entries(s: Seq<(&str, Json)>) -> Seq<Seq<PieceView>>
    decreases s,
{
    Seq::new(
        s.len(),
        |i: int|
            if 0 <= i < s.len() {
                text(seq![' ']) + text(quoted(s[i].0@)) + text(seq![':', ' ']) + render(s[i].1)
            } else {
                seq![]
            },
    )
}

/// Joining one more part adds the separator and that part at the end.
proof fn lemma_join_push(parts: Seq<Seq<PieceView>>, p: Seq<PieceView>, sep: Seq<PieceView>)
    ensures
        join(parts.push(p), sep) == if parts.len() == 0 {
            p
        } else {
            join(parts, sep) + sep + p
        },
{
    assert(parts.push(p).drop_last() =~= parts);
}

fn push_piece(out: &mut Vec<Piece>, p: Piece)
    ensures
        pieces_view(final(out)@) == pieces_view(old(out)@).push(p@),
{
    out.push(p);
    proof {
        assert(pieces_view(out@) =~= pieces_view(old(out)@).push(p@));
    }
}

fn push_text(out: &mut Vec<Piece>, s: &str)
    ensures
        pieces_view(final(out)@) == pieces_view(old(out)@) + text(s@),
{
    push_piece(out, Piece::Text(String::from_str(s)));
    proof {
        assert(pieces_view(old(out)@).push(PieceView::Text(s@)) =~= pieces_view(old(out)@) + text(
            s@,
        ));
    }
}

/// Appends the rendering of `v` to `out`.
fn render_into(v: &Json, out: &mut Vec<Piece>)
    ensures
        pieces_view(final(out)@) == pieces_view(old(out)@) + render(*v),
    decreases *v,
{
    broadcast use vstd::std_specs::vec::axiom_vec_index_decreases;

    let ghost start = pieces_view(out@);
    match *v {
        Json::Null(_) => {
            push_text(out, "null");
            proof {
                reveal_strlit("null");
                assert("null"@ =~= seq!['n', 'u', 'l', 'l']);
            }
        },
        Json::Bool(b) => {
            if b {
                push_text(out, "true");
                proof {
                    reveal_strlit("true");
                    assert("true"@ =~= seq!['t', 'r', 'u', 'e']);
                }
            } else {
                push_text(out, "false");
                proof {
                    reveal_strlit("false");
                    assert("false"@ =~= seq!['f', 'a', 'l', 's', 'e']);
                }
            }
        },
        Json::Float(f) => {
            push_piece(out, Piece::Float(f));
            proof {
                assert(start.push(PieceView::Float(f)) =~= start + seq![PieceView::Float(f)]);
            }
        },
        Json::Int(n) => {
            push_piece(out, Piece::Text(int_to_decimal(n)));
            proof {
                assert(start.push(PieceView::Text(decimal(n as int))) =~= start + text(
                    decimal(n as int),
                ));
            }
        },
        Json::Str(s) => {
            push_piece(out, Piece::Text(quote_str(s)));
            proof {
                assert(start.push(PieceView::Text(quoted(s@))) =~= start + text(quoted(s@)));
            }
        },
        Json::Array(a) => {
            let ghost parts = render_elements(a@);
            let ghost sep = text(seq![',', ' ']);
            push_text(out, "[");
            proof {
                reveal_strlit("[");
                assert("["@ =~= seq!['[']);
            }
            let mut i: usize = 0;
            while i < a.len()
                invariant
                    *v == Json::Array(a),
                    i <= a@.len(),
                    sep == text(seq![',', ' ']),
                    parts == render_elements(a@),
                    parts.len() == a@.len(),
                    forall|j: int| 0 <= j < a@.len() ==> #[trigger] parts[j] == render(a@[j]),
                    pieces_view(out@) == start + text(seq!['[']) + join(parts.take(i as int), sep),
                decreases a@.len() - i,
            {
                let ghost before = pieces_view(out@);
                if i > 0 {
                    push_text(out, ", ");
                    proof {
                        reveal_strlit(", ");
                        assert(", "@ =~= seq![',', ' ']);
                        assert(pieces_view(out@) =~= before + sep);
                    }
                }
                let ghost mid = pieces_view(out@);
                proof {
                    assert(decreases_to!(*v => v->Array_0));
                    assert(decreases_to!(*a => a[i as int]));
                }
                render_into(&a[i], out);
                proof {
                    assert(pieces_view(out@) =~= mid + render(a@[i as int]));
                    lemma_join_push(parts.take(i as int), parts[i as int], sep);
                    assert(parts.take(i + 1) =~= parts.take(i as int).push(parts[i as int]));
                    if i > 0 {
                        assert(pieces_view(out@) =~= before + sep + render(a@[i as int]));
                    } else {
                        assert(pieces_view(out@) =~= before + render(a@[i as int]));
                    }
                }
                i += 1;
            }
            push_text(out, "]");
            proof {
                reveal_strlit("]");
                assert("]"@ =~= seq![']']);
                assert(parts.take(i as int) =~= parts);
            }
        },
        Json::Object(o) => {
            let ghost parts = render_entries(o@);
            let ghost sep = text(seq![',']);
            push_text(out, "{");
            proof {
                reveal_strlit("{");
                assert("{"@ =~= seq!['{']);
            }
            let mut i: usize = 0;
            while i < o.len()
                invariant
                    *v == Json::Object(o),
                    i <= o@.len(),
                    sep == text(seq![',']),
                    parts == render_entries(o@),
                    parts.len() == o@.len(),
                    forall|j: int|
                        0 <= j < o@.len() ==> #[trigger] parts[j] == text(seq![' ']) + text(
                            quoted(o@[j].0@),
                        ) + text(seq![':', ' ']) + render(o@[j].1),
                    pieces_view(out@) == start + text(seq!['{']) + join(parts.take(i as int), sep),
                decreases o@.len() - i,
            {
                let ghost before = pieces_view(out@);
                if i > 0 {
                    push_text(out, ",");
                    proof {
                        reveal_strlit(",");
                        assert(","@ =~= seq![',']);
                        assert(pieces_view(out@) =~= before + sep);
                    }
                }
                let ghost mid = pieces_view(out@);
                push_text(out, " ");
                push_piece(out, Piece::Text(quote_str(o[i].0)));
                push_text(out, ": ");
                proof {
                    reveal_strlit(" ");
                    reveal_strlit(": ");
                    assert(" "@ =~= seq![' ']);
                    assert(": "@ =~= seq![':', ' ']);
                    assert(decreases_to!(*v => v->Object_0));
                    assert(decreases_to!(*o => o[i as int]));
                }
                render_into(&o[i].1, out);
                proof {
                    let entry = parts[i as int];
                    assert(pieces_view(out@) =~= mid + entry);
                    lemma_join_push(parts.take(i as int), entry, sep);
                    assert(parts.take(i + 1) =~= parts.take(i as int).push(entry));
                    if i > 0 {
                        assert(pieces_view(out@) =~= before + sep + entry);
                    } else {
                        assert(pieces_view(out@) =~= before + entry);
                    }
                }
                i += 1;
            }
            push_text(out, " }");
            proof {
                reveal_strlit(" }");
                assert(" }"@ =~= seq![' ', '}']);
                assert(parts.take(i as int) =~= parts);
            }
        },
    }
}

impl<'a> Json<'a> {
    /// The structural debug rendering of the value, piece by piece.
    pub fn debug_pieces(&self) -> (r: Vec<Piece>)
        ensures
            pieces_view(r@) == render(*self),
    {
        let mut out: Vec<Piece> = Vec::new();
        render_into(self, &mut out);
        proof {
            assert(pieces_view(out@) =~= render(*self));
        }
        out
    }
}

} // verus!
