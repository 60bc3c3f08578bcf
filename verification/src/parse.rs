//! The structural decoder: from a raw byte buffer to the stage rectangle
//! and the typed tag sequence. The format is the classic uncompressed
//! vector-animation container: a three-byte signature, version and length
//! bytes, a bit-packed stage rectangle, frame rate and count words, then a
//! stream of tagged records. Any truncation or malformed record aborts the
//! whole parse; unknown record kinds are skipped by their stated length.

use vstd::prelude::*;

use crate::bits::{
    bit_val, read_bit, read_sbits, read_u16le, read_u32le, read_ubits, sbits, u16le, u32le, ubits,
    BUF_CAP,
};
use crate::tags::{px_from_twips, Tag, Translation};
use vstd::arithmetic::power2::lemma2_to64;

verus! {

/// The bit position right after a matrix record's scale part, or nothing if
/// the part would cross `limit`.
pub open spec fn after_scale(b: Seq<u8>, p: int, limit: int) -> Option<int> {
    if p + 1 > limit {
        Option::None
    } else if bit_val(b, p) == 1 {
        if p + 6 > limit {
            Option::None
        } else {
            let nb = ubits(b, p + 1, 5);
            if p + 6 + 2 * nb > limit {
                Option::None
            } else {
                Option::Some(p + 6 + 2 * nb)
            }
        }
    } else {
        Option::Some(p + 1)
    }
}

/// The bit position right after a matrix record's rotate part, or nothing
/// if the part would cross `limit`.
pub open spec fn after_rotate(b: Seq<u8>, p: int, limit: int) -> Option<int> {
    if p + 1 > limit {
        Option::None
    } else if bit_val(b, p) == 1 {
        if p + 6 > limit {
            Option::None
        } else {
            let nb = ubits(b, p + 1, 5);
            if p + 6 + 2 * nb > limit {
                Option::None
            } else {
                Option::Some(p + 6 + 2 * nb)
            }
        }
    } else {
        Option::Some(p + 1)
    }
}

/// A matrix record starting at bit `p`: scale and rotate parts are skipped,
/// the translation is kept, and the record must end by bit `limit`.
pub open spec fn spec_matrix(b: Seq<u8>, p: int, limit: int) -> Option<(Translation, int)> {
    match after_scale(b, p, limit) {
        Option::None => Option::None,
        Option::Some(p1) => match after_rotate(b, p1, limit) {
            Option::None => Option::None,
            Option::Some(p2) => {
                if p2 + 5 > limit {
                    Option::None
                } else {
                    let nt = ubits(b, p2, 5);
                    if p2 + 5 + 2 * nt > limit {
                        Option::None
                    } else {
                        let tx = sbits(b, p2 + 5, nt as nat);
                        let ty = sbits(b, p2 + 5 + nt, nt as nat);
                        Option::Some(
                            (Translation { dx: tx as i32, dy: ty as i32 }, p2 + 5 + 2 * nt),
                        )
                    }
                }
            },
        },
    }
}

/// A place-or-modify record (the two-flag form): depth always, character
/// only when placed anew or replaced, matrix only when flagged.
pub open spec fn spec_place2(b: Seq<u8>, start: int, len: int) -> Option<Tag> {
    if len < 3 {
        Option::None
    } else {
        let flags = b[start] as int;
        let depth = u16le(b, start + 1) as u16;
        let has_char = (flags / 2) % 2 == 1;
        let has_matrix = (flags / 4) % 2 == 1;
        if has_char {
            if len < 5 {
                Option::None
            } else {
                let id = u16le(b, start + 3) as u16;
                if has_matrix {
                    match spec_matrix(b, (start + 5) * 8, (start + len) * 8) {
                        Option::None => Option::None,
                        Option::Some((t, _end)) => Option::Some(
                            Tag::Place { depth, character_id: id, translation: t },
                        ),
                    }
                } else {
                    Option::Some(
                        Tag::Place {
                            depth,
                            character_id: id,
                            translation: Translation { dx: 0, dy: 0 },
                        },
                    )
                }
            }
        } else {
            if has_matrix {
                match spec_matrix(b, (start + 3) * 8, (start + len) * 8) {
                    Option::None => Option::None,
                    Option::Some((t, _end)) => Option::Some(
                        Tag::Modify { depth, translation: Option::Some(t) },
                    ),
                }
            } else {
                Option::Some(Tag::Modify { depth, translation: Option::None })
            }
        }
    }
}

/// The older place record: character and depth words, then a matrix.
pub open spec fn spec_place1(b: Seq<u8>, start: int, len: int) -> Option<Tag> {
    if len < 4 {
        Option::None
    } else {
        let id = u16le(b, start) as u16;
        let depth = u16le(b, start + 2) as u16;
        match spec_matrix(b, (start + 4) * 8, (start + len) * 8) {
            Option::None => Option::None,
            Option::Some((t, _end)) => Option::Some(
                Tag::Place { depth, character_id: id, translation: t },
            ),
        }
    }
}

/// The older remove record: a character word (ignored), then the depth.
pub open spec fn spec_remove1(b: Seq<u8>, start: int, len: int) -> Option<Tag> {
    if len < 4 {
        Option::None
    } else {
        Option::Some(Tag::Remove { depth: u16le(b, start + 2) as u16 })
    }
}

/// The newer remove record: the depth alone.
pub open spec fn spec_remove2(b: Seq<u8>, start: int, len: int) -> Option<Tag> {
    if len < 2 {
        Option::None
    } else {
        Option::Some(Tag::Remove { depth: u16le(b, start) as u16 })
    }
}

/// One record body: a tag for the kinds the display list reacts to, a skip
/// for every other kind, or a parse failure.
#[verifier::opaque]
pub open spec fn spec_payload(code: int, b: Seq<u8>, start: int, len: int) -> Option<Option<Tag>> {
    if code == 1 {
        Option::Some(Option::Some(Tag::ShowFrame))
    } else if code == 4 {
        match spec_place1(b, start, len) {
            Option::None => Option::None,
            Option::Some(t) => Option::Some(Option::Some(t)),
        }
    } else if code == 5 {
        match spec_remove1(b, start, len) {
            Option::None => Option::None,
            Option::Some(t) => Option::Some(Option::Some(t)),
        }
    } else if code == 26 {
        match spec_place2(b, start, len) {
            Option::None => Option::None,
            Option::Some(t) => Option::Some(Option::Some(t)),
        }
    } else if code == 28 {
        match spec_remove2(b, start, len) {
            Option::None => Option::None,
            Option::Some(t) => Option::Some(Option::Some(t)),
        }
    } else {
        Option::Some(Option::None)
    }
}

/// The tag stream from byte `pos` on: each record is a code-and-length
/// word, an optional long length, and a body; code 0 ends the stream.
#[verifier::opaque]
pub open spec fn spec_tags(b: Seq<u8>, pos: int) -> Option<Seq<Tag>>
    decreases b.len() - pos, 1int,
    when 0 <= pos <= b.len()
{
    if pos + 2 > b.len() {
        Option::None
    } else {
        let cl = u16le(b, pos);
        let code = cl / 64;
        let short = cl % 64;
        if short == 63 {
            if pos + 6 > b.len() {
                Option::None
            } else {
                spec_tag_step(b, pos, pos + 6, code, u32le(b, pos + 2))
            }
        } else {
            spec_tag_step(b, pos, pos + 2, code, short)
        }
    }
}

/// One record starting at `pos` with its body at `body`, then the rest of
/// the stream.
#[verifier::opaque]
pub open spec fn spec_tag_step(b: Seq<u8>, pos: int, body: int, code: int, len: int) -> Option<
    Seq<Tag>,
>
    decreases b.len() - pos, 0int,
    when 0 <= pos < body && 0 <= len
{
    if body + len > b.len() {
        Option::None
    } else if code == 0 {
        Option::Some(Seq::empty())
    } else {
        match spec_payload(code, b, body, len) {
            Option::None => Option::None,
            Option::Some(mt) => match spec_tags(b, body + len) {
                Option::None => Option::None,
                Option::Some(rest) => Option::Some(
                    match mt {
                        Option::Some(t) => seq![t] + rest,
                        Option::None => rest,
                    },
                ),
            },
        }
    }
}

/// A whole movie: the uncompressed signature, the bit-packed stage
/// rectangle rounded to whole pixels, and the tag stream after the frame
/// rate and frame count words. Anything else is a decode failure.
pub open spec fn spec_movie(b: Seq<u8>) -> Option<(int, int, Seq<Tag>)> {
    if b.len() < 9 || b.len() > BUF_CAP {
        Option::None
    } else if !(b[0] == 0x46u8 && b[1] == 0x57u8 && b[2] == 0x53u8) {
        Option::None
    } else {
        let nb = ubits(b, 64, 5);
        let body = (69 + 4 * nb + 7) / 8 + 4;
        if body > b.len() {
            Option::None
        } else {
            let xmin = sbits(b, 69, nb as nat);
            let xmax = sbits(b, 69 + nb, nb as nat);
            let ymin = sbits(b, 69 + 2 * nb, nb as nat);
            let ymax = sbits(b, 69 + 3 * nb, nb as nat);
            match spec_tags(b, body) {
                Option::None => Option::None,
                Option::Some(ts) => Option::Some(
                    (px_from_twips(xmax - xmin), px_from_twips(ymax - ymin), ts),
                ),
            }
        }
    }
}

/// Skips the scale part of a matrix record.
fn scan_scale(b: &Vec<u8>, p: usize, limit: usize) -> (r: Option<usize>)
    requires
        b@.len() <= BUF_CAP,
        limit <= b@.len() * 8,
        p <= limit,
    ensures
        match r {
            Option::None => after_scale(b@, p as int, limit as int) is None,
            Option::Some(q) => after_scale(b@, p as int, limit as int) == Option::Some(q as int)
                && p < q <= limit,
        },
{
    if limit - p < 1 {
        return Option::None;
    }
    let flag = read_bit(b, p);
    if flag == 1 {
        if limit - p < 6 {
            return Option::None;
        }
        let nb = read_ubits(b, p + 1, 5) as usize;
        proof {
            lemma2_to64();
        }
        if 2 * nb > limit - (p + 6) {
            return Option::None;
        }
        Option::Some(p + 6 + 2 * nb)
    } else {
        Option::Some(p + 1)
    }
}

/// Skips the rotate part of a matrix record.
fn scan_rotate(b: &Vec<u8>, p: usize, limit: usize) -> (r: Option<usize>)
    requires
        b@.len() <= BUF_CAP,
        limit <= b@.len() * 8,
        p <= limit,
    ensures
        match r {
            Option::None => after_rotate(b@, p as int, limit as int) is None,
            Option::Some(q) => after_rotate(b@, p as int, limit as int) == Option::Some(q as int)
                && p < q <= limit,
        },
{
    if limit - p < 1 {
        return Option::None;
    }
    let flag = read_bit(b, p);
    if flag == 1 {
        if limit - p < 6 {
            return Option::None;
        }
        let nb = read_ubits(b, p + 1, 5) as usize;
        proof {
            lemma2_to64();
        }
        if 2 * nb > limit - (p + 6) {
            return Option::None;
        }
        Option::Some(p + 6 + 2 * nb)
    } else {
        Option::Some(p + 1)
    }
}

/// Reads a matrix record's translation, bit-packed at `p`, ending by bit
/// `limit`.
fn parse_matrix_at(b: &Vec<u8>, p: usize, limit: usize) -> (r: Option<(Translation, usize)>)
    requires
        b@.len() <= BUF_CAP,
        limit <= b@.len() * 8,
        p <= limit,
    ensures
        match r {
            Option::None => spec_matrix(b@, p as int, limit as int) is None,
            Option::Some((t, end)) => spec_matrix(b@, p as int, limit as int) == Option::Some(
                (t, end as int),
            ),
        },
{
    let p1 = match scan_scale(b, p, limit) {
        Option::None => {
            return Option::None;
        },
        Option::Some(q) => q,
    };
    let p2 = match scan_rotate(b, p1, limit) {
        Option::None => {
            return Option::None;
        },
        Option::Some(q) => q,
    };
    if limit - p2 < 5 {
        return Option::None;
    }
    let nt = read_ubits(b, p2, 5) as usize;
    proof {
        lemma2_to64();
    }
    if 2 * nt > limit - (p2 + 5) {
        return Option::None;
    }
    proof {
        crate::bits::lemma_sbits_bound(b@, p2 as int + 5, nt as nat);
        crate::bits::lemma_sbits_bound(b@, p2 as int + 5 + nt as int, nt as nat);
    }
    let tx = read_sbits(b, p2 + 5, nt);
    let ty = read_sbits(b, p2 + 5 + nt, nt);
    Option::Some((Translation { dx: tx, dy: ty }, p2 + 5 + 2 * nt))
}

/// Parses one record body into the tag it stands for, a skip, or a
/// failure.
fn parse_payload_at(code: u16, b: &Vec<u8>, start: usize, len: usize) -> (r: Option<Option<Tag>>)
    requires
        b@.len() <= BUF_CAP,
        start + len <= b@.len(),
    ensures
        r == spec_payload(code as int, b@, start as int, len as int),
{
    proof {
        reveal(spec_payload);
    }
    if code == 1 {
        Option::Some(Option::Some(Tag::ShowFrame))
    } else if code == 4 {
        if len < 4 {
            return Option::None;
        }
        let id = read_u16le(b, start);
        let depth = read_u16le(b, start + 2);
        match parse_matrix_at(b, (start + 4) * 8, (start + len) * 8) {
            Option::None => Option::None,
            Option::Some((t, _end)) => Option::Some(
                Option::Some(Tag::Place { depth, character_id: id, translation: t }),
            ),
        }
    } else if code == 5 {
        if len < 4 {
            return Option::None;
        }
        Option::Some(Option::Some(Tag::Remove { depth: read_u16le(b, start + 2) }))
    } else if code == 26 {
        if len < 3 {
            return Option::None;
        }
        let flags = b[start];
        let depth = read_u16le(b, start + 1);
        let has_char = (flags / 2) % 2 == 1;
        let has_matrix = (flags / 4) % 2 == 1;
        if has_char {
            if len < 5 {
                return Option::None;
            }
            let id = read_u16le(b, start + 3);
            if has_matrix {
                match parse_matrix_at(b, (start + 5) * 8, (start + len) * 8) {
                    Option::None => Option::None,
                    Option::Some((t, _end)) => Option::Some(
                        Option::Some(Tag::Place { depth, character_id: id, translation: t }),
                    ),
                }
            } else {
                Option::Some(
                    Option::Some(
                        Tag::Place {
                            depth,
                            character_id: id,
                            translation: Translation { dx: 0, dy: 0 },
                        },
                    ),
                )
            }
        } else {
            if has_matrix {
                match parse_matrix_at(b, (start + 3) * 8, (start + len) * 8) {
                    Option::None => Option::None,
                    Option::Some((t, _end)) => Option::Some(
                        Option::Some(Tag::Modify { depth, translation: Option::Some(t) }),
                    ),
                }
            } else {
                Option::Some(Option::Some(Tag::Modify { depth, translation: Option::None }))
            }
        }
    } else if code == 28 {
        if len < 2 {
            return Option::None;
        }
        Option::Some(Option::Some(Tag::Remove { depth: read_u16le(b, start) }))
    } else {
        Option::Some(Option::None)
    }
}

/// A stream cut off before a whole code-and-length word (or before its
/// long length) fails to parse.
proof fn lemma_tags_truncated(b: Seq<u8>, pos: int)
    requires
        0 <= pos <= b.len(),
        pos + 2 > b.len() || (u16le(b, pos) % 64 == 63 && pos + 6 > b.len()),
    ensures
        spec_tags(b, pos) is None,
{
    reveal_with_fuel(spec_tags, 1);
}

/// The stream at `pos` reads as one record framed by `body` and `len`,
/// then the rest: the framing fields pin `spec_tags` down to one
/// `spec_tag_step`.
proof fn lemma_tag_framing(b: Seq<u8>, pos: int, body: int, code: int, len: int)
    requires
        0 <= pos,
        pos + 2 <= b.len(),
        code == u16le(b, pos) / 64,
        u16le(b, pos) % 64 == 63 ==> pos + 6 <= b.len() && body == pos + 6 && len == u32le(
            b,
            pos + 2,
        ),
        u16le(b, pos) % 64 != 63 ==> body == pos + 2 && len == u16le(b, pos) % 64,
    ensures
        spec_tags(b, pos) == spec_tag_step(b, pos, body, code, len),
{
    reveal_with_fuel(spec_tags, 2);
    reveal_with_fuel(spec_tag_step, 2);
    let cl = u16le(b, pos);
    if cl % 64 == 63 {
        assert(spec_tags(b, pos) == spec_tag_step(b, pos, pos + 6, cl / 64, u32le(b, pos + 2)));
    } else {
        assert(spec_tags(b, pos) == spec_tag_step(b, pos, pos + 2, cl / 64, cl % 64));
    }
}

/// What one record step means, by cases on its frame.
proof fn lemma_tag_step_unfold(b: Seq<u8>, pos: int, body: int, code: int, len: int)
    requires
        0 <= pos < body,
        0 <= len,
    ensures
        body + len > b.len() ==> spec_tag_step(b, pos, body, code, len) is None,
        body + len <= b.len() && code == 0 ==> spec_tag_step(b, pos, body, code, len)
            == Option::Some(Seq::<Tag>::empty()),
        body + len <= b.len() && code != 0 ==> spec_tag_step(b, pos, body, code, len) == (
        match spec_payload(code, b, body, len) {
            Option::None => Option::None,
            Option::Some(mt) => match spec_tags(b, body + len) {
                Option::None => Option::None,
                Option::Some(rest) => Option::Some(
                    match mt {
                        Option::Some(t) => seq![t] + rest,
                        Option::None => rest,
                    },
                ),
            },
        }),
{
    reveal_with_fuel(spec_tags, 2);
    reveal_with_fuel(spec_tag_step, 2);
}

/// Parses the tag stream from byte `start` to its end marker.
#[verifier::rlimit(100)]
pub fn parse_tag_list(b: &Vec<u8>, start: usize) -> (r: Option<Vec<Tag>>)
    requires
        b@.len() <= BUF_CAP,
        start <= b@.len(),
    ensures
        match r {
            Option::None => spec_tags(b@, start as int) is None,
            Option::Some(ts) => spec_tags(b@, start as int) == Option::Some(ts@),
        },
{
    let n = b.len();
    let mut acc: Vec<Tag> = Vec::new();
    let mut pos: usize = start;
    proof {
        assert(acc@ =~= Seq::<Tag>::empty());
        if spec_tags(b@, start as int) is Some {
            assert(acc@ + spec_tags(b@, start as int).unwrap() =~= spec_tags(
                b@,
                start as int,
            ).unwrap());
        }
    }
    loop
        invariant_except_break
            n == b@.len(),
            b@.len() <= BUF_CAP,
            start <= pos <= n,
            spec_tags(b@, start as int) is None <==> spec_tags(b@, pos as int) is None,
            spec_tags(b@, start as int) is Some ==> spec_tags(b@, start as int)
                == Option::Some(acc@ + spec_tags(b@, pos as int).unwrap()),
        ensures
            spec_tags(b@, start as int) == Option::Some(acc@),
        decreases n - pos,
    {
        let ghost before = spec_tags(b@, pos as int);
        if n - pos < 2 {
            proof {
                lemma_tags_truncated(b@, pos as int);
            }
            return Option::None;
        }
        let cl = read_u16le(b, pos);
        let code = cl / 64;
        let short = cl % 64;
        let body: usize;
        let len: usize;
        if short == 63 {
            if n - pos < 6 {
                proof {
                    lemma_tags_truncated(b@, pos as int);
                }
                return Option::None;
            }
            body = pos + 6;
            len = read_u32le(b, pos + 2) as usize;
        } else {
            body = pos + 2;
            len = short as usize;
        }
        let ghost step = spec_tag_step(b@, pos as int, body as int, code as int, len as int);
        proof {
            lemma_tag_framing(b@, pos as int, body as int, code as int, len as int);
            lemma_tag_step_unfold(b@, pos as int, body as int, code as int, len as int);
            assert(before == step);
        }
        if len > n - body {
            proof {
                assert(step is None);
            }
            return Option::None;
        }
        if code == 0 {
            proof {
                assert(step == Option::Some(Seq::<Tag>::empty()));
                assert(acc@ + Seq::<Tag>::empty() =~= acc@);
            }
            break ;
        }
        let ghost acc0 = acc@;
        let ghost rest = spec_tags(b@, body as int + len as int);
        match parse_payload_at(code, b, body, len) {
            Option::None => {
                proof {
                    assert(step is None);
                }
                return Option::None;
            },
            Option::Some(mt) => match mt {
                Option::None => {
                    proof {
                        assert(step is None <==> rest is None);
                        assert(rest is Some ==> step == Option::Some(rest.unwrap()));
                    }
                },
                Option::Some(t) => {
                    acc.push(t);
                    proof {
                        assert(step is None <==> rest is None);
                        assert(rest is Some ==> step == Option::Some(seq![t] + rest.unwrap()));
                        assert(acc@ =~= acc0 + seq![t]);
                        if rest is Some {
                            assert(acc0 + (seq![t] + rest.unwrap()) =~= (acc0 + seq![t])
                                + rest.unwrap());
                        }
                    }
                },
            },
        }
        pos = body + len;
    }
    Option::Some(acc)
}

/// Decodes a whole movie buffer into stage pixels and the tag sequence.
pub fn parse_movie_bytes(b: &Vec<u8>) -> (r: Option<(i32, i32, Vec<Tag>)>)
    ensures
        match r {
            Option::None => spec_movie(b@) is None,
            Option::Some((w, h, ts)) => spec_movie(b@) == Option::Some(
                (w as int, h as int, ts@),
            ),
        },
{
    let n = b.len();
    if n < 9 || n > BUF_CAP {
        return Option::None;
    }
    if !(b[0] == 0x46 && b[1] == 0x57 && b[2] == 0x53) {
        return Option::None;
    }
    let nb = read_ubits(b, 64, 5) as usize;
    proof {
        lemma2_to64();
    }
    let body = (69 + 4 * nb + 7) / 8 + 4;
    if body > n {
        return Option::None;
    }
    proof {
        assert(69 + 4 * nb <= 8 * (body - 4)) by {
            assert((76 + 4 * nb) == 8 * ((76 + 4 * nb) / 8) + (76 + 4 * nb) % 8);
        }
        crate::bits::lemma_sbits_bound(b@, 69, nb as nat);
        crate::bits::lemma_sbits_bound(b@, 69 + nb as int, nb as nat);
        crate::bits::lemma_sbits_bound(b@, 69 + 2 * nb as int, nb as nat);
        crate::bits::lemma_sbits_bound(b@, 69 + 3 * nb as int, nb as nat);
    }
    let xmin = read_sbits(b, 69, nb);
    let xmax = read_sbits(b, 69 + nb, nb);
    let ymin = read_sbits(b, 69 + 2 * nb, nb);
    let ymax = read_sbits(b, 69 + 3 * nb, nb);
    let w_t = (xmax as i64) - (xmin as i64);
    let h_t = (ymax as i64) - (ymin as i64);
    let w = crate::tags::px_of_twips(w_t as i32);
    let h = crate::tags::px_of_twips(h_t as i32);
    match parse_tag_list(b, body) {
        Option::None => Option::None,
        Option::Some(ts) => Option::Some((w, h, ts)),
    }
}

} // verus!
