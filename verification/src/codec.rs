//! The wire codec: comma-separated ASCII datagrams. Outbound command
//! messages are `<flag>,<id>,<name>[,<param>...]`; inbound datagrams are
//! either `res,<id>,<payload>` replies or `pos,<x>,<y>,<dir>` pose reports.
use vstd::prelude::*;

use vstd::utf8::{
    valid_utf8, valid_first_scalar, valid_leading_and_continuation_bytes_first_codepoint,
    decode_first_codepoint, length_of_first_scalar, pop_first_scalar,
};

use crate::parse::{is_i32_token, int_token_value};

verus! {

pub const BYTE_COMMA: u8 = 0x2c;

pub const BYTE_QUOTE: u8 = 0x22;

/// The views of a list of byte strings.
pub open spec fn views_of(parts: Seq<Vec<u8>>) -> Seq<Seq<u8>> {
    Seq::new(parts.len(), |i: int| parts[i]@)
}

/// ASCII whitespace, as leading and trailing bytes are stripped from each
/// comma-separated field. Only these six bytes count as whitespace:
/// non-ASCII Unicode whitespace is kept as field content.
pub open spec fn is_space(b: u8) -> bool {
    b == 0x20 || (0x09 <= b <= 0x0d)
}

pub open spec fn trim_front(s: Seq<u8>) -> Seq<u8>
    decreases s.len(),
{
    if s.len() > 0 && is_space(s[0]) {
        trim_front(s.drop_first())
    } else {
        s
    }
}

pub open spec fn trim_back(s: Seq<u8>) -> Seq<u8>
    decreases s.len(),
{
    if s.len() > 0 && is_space(s.last()) {
        trim_back(s.drop_last())
    } else {
        s
    }
}

/// `s` with leading and trailing ASCII whitespace removed.
pub open spec fn trimmed(s: Seq<u8>) -> Seq<u8> {
    trim_back(trim_front(s))
}

/// Strip leading and trailing ASCII whitespace.
pub fn trim(s: &[u8]) -> (r: &[u8])
    ensures
        r@ == trimmed(s@),
{
    let n = s.len();
    assert(s@.subrange(0, n as int) =~= s@);
    let mut a: usize = 0;
    while a < n && (s[a] == 0x20 || (s[a] >= 0x09 && s[a] <= 0x0d))
        invariant
            0 <= a <= n,
            n == s@.len(),
            trim_front(s@) == trim_front(s@.subrange(a as int, n as int)),
        decreases n - a,
    {
        proof {
            let suf = s@.subrange(a as int, n as int);
            assert(is_space(suf[0]));
            assert(suf.drop_first() =~= s@.subrange(a + 1, n as int));
        }
        a = a + 1;
    }
    proof {
        let suf = s@.subrange(a as int, n as int);
        if a < n {
            assert(!is_space(suf[0]));
        }
        assert(trim_front(suf) == suf);
    }
    let mut b: usize = n;
    while b > a && (s[b - 1] == 0x20 || (s[b - 1] >= 0x09 && s[b - 1] <= 0x0d))
        invariant
            a <= b <= n,
            n == s@.len(),
            trim_front(s@) == s@.subrange(a as int, n as int),
            trim_back(s@.subrange(a as int, n as int)) == trim_back(
                s@.subrange(a as int, b as int),
            ),
        decreases b,
    {
        proof {
            let cur = s@.subrange(a as int, b as int);
            assert(is_space(cur.last()));
            assert(cur.drop_last() =~= s@.subrange(a as int, b - 1));
        }
        b = b - 1;
    }
    proof {
        let cur = s@.subrange(a as int, b as int);
        if b > a {
            assert(!is_space(cur.last()));
        }
        assert(trim_back(cur) == cur);
    }
    vstd::slice::slice_subrange(s, a, b)
}

/// The comma-separated fields of a datagram: `n` commas yield `n + 1`
/// fields, and empty fields are kept.
pub open spec fn split_commas(s: Seq<u8>) -> Seq<Seq<u8>>
    decreases s.len(),
{
    if s.len() == 0 {
        seq![Seq::<u8>::empty()]
    } else if s[0] == BYTE_COMMA {
        seq![Seq::<u8>::empty()] + split_commas(s.drop_first())
    } else {
        let rest = split_commas(s.drop_first());
        seq![seq![s[0]] + rest[0]] + rest.drop_first()
    }
}

pub proof fn lemma_split_nonempty(s: Seq<u8>)
    ensures
        split_commas(s).len() >= 1,
    decreases s.len(),
{
    if s.len() > 0 {
        lemma_split_nonempty(s.drop_first());
    }
}

/// A string without commas is a single field.
pub proof fn lemma_split_no_comma(s: Seq<u8>)
    requires
        forall|i: int| 0 <= i < s.len() ==> s[i] != BYTE_COMMA,
    ensures
        split_commas(s) == seq![s],
    decreases s.len(),
{
    if s.len() == 0 {
        assert(Seq::<u8>::empty() =~= s);
        assert(split_commas(s) =~= seq![s]);
    } else {
        assert(s[0] != BYTE_COMMA);
        lemma_split_no_comma(s.drop_first());
        let rest = split_commas(s.drop_first());
        assert(rest[0] == s.drop_first());
        assert(seq![s[0]] + rest[0] =~= s);
        assert(rest.drop_first() =~= Seq::<Seq<u8>>::empty());
        assert(split_commas(s) =~= seq![s]);
    }
}

/// Splitting at the first comma: the field before it, then the split of
/// what follows it.
pub proof fn lemma_split_at_comma(s: Seq<u8>, c: int)
    requires
        0 <= c < s.len(),
        s[c] == BYTE_COMMA,
        forall|i: int| 0 <= i < c ==> s[i] != BYTE_COMMA,
    ensures
        split_commas(s) == seq![s.subrange(0, c)] + split_commas(
            s.subrange(c + 1, s.len() as int),
        ),
    decreases c,
{
    if c == 0 {
        assert(s.subrange(0, 0) =~= Seq::<u8>::empty());
        assert(s.drop_first() =~= s.subrange(1, s.len() as int));
        assert(split_commas(s) =~= seq![s.subrange(0, 0)] + split_commas(
            s.subrange(1, s.len() as int),
        ));
    } else {
        assert(s[0] != BYTE_COMMA);
        let sdf = s.drop_first();
        assert(forall|i: int| 0 <= i < c - 1 ==> #[trigger] sdf[i] == s[i + 1]);
        lemma_split_at_comma(sdf, c - 1);
        let rest = split_commas(sdf);
        assert(rest == seq![sdf.subrange(0, c - 1)] + split_commas(
            sdf.subrange(c, sdf.len() as int),
        ));
        assert(rest[0] == sdf.subrange(0, c - 1));
        assert(seq![s[0]] + rest[0] =~= s.subrange(0, c));
        assert(rest.drop_first() =~= split_commas(sdf.subrange(c, sdf.len() as int)));
        assert(sdf.subrange(c, sdf.len() as int) =~= s.subrange(c + 1, s.len() as int));
        assert(split_commas(s) =~= seq![s.subrange(0, c)] + split_commas(
            s.subrange(c + 1, s.len() as int),
        ));
    }
}

/// Split a datagram into its comma-separated fields.
pub fn split_commas_exec(s: &[u8]) -> (parts: Vec<Vec<u8>>)
    ensures
        views_of(parts@) == split_commas(s@),
{
    let n = s.len();
    let mut parts: Vec<Vec<u8>> = Vec::new();
    proof {
        assert(s@.subrange(0, n as int) =~= s@);
        assert(views_of(parts@) =~= Seq::<Seq<u8>>::empty());
        assert(views_of(parts@) + split_commas(s@) =~= split_commas(s@));
    }
    let mut start: usize = 0;
    let mut i: usize = 0;
    while i < n
        invariant
            0 <= start <= i <= n,
            n == s@.len(),
            forall|j: int| start <= j < i ==> s@[j] != BYTE_COMMA,
            split_commas(s@) =~= views_of(parts@) + split_commas(
                s@.subrange(start as int, n as int),
            ),
        decreases n - i,
    {
        if s[i] == BYTE_COMMA {
            let field = vstd::slice::slice_to_vec(vstd::slice::slice_subrange(s, start, i));
            let ghost old_parts = parts@;
            parts.push(field);
            proof {
                let suf = s@.subrange(start as int, n as int);
                let c = i - start;
                assert(suf[c] == BYTE_COMMA);
                assert(forall|j: int| 0 <= j < c ==> #[trigger] suf[j] == s@[j + start]);
                lemma_split_at_comma(suf, c);
                assert(suf.subrange(0, c) =~= s@.subrange(start as int, i as int));
                assert(suf.subrange(c + 1, suf.len() as int) =~= s@.subrange(
                    i + 1,
                    n as int,
                ));
                assert(views_of(parts@) =~= views_of(old_parts) + seq![
                    s@.subrange(start as int, i as int),
                ]);
                assert(split_commas(s@) =~= views_of(parts@) + split_commas(
                    s@.subrange(i + 1, n as int),
                ));
            }
            start = i + 1;
        }
        i = i + 1;
    }
    let field = vstd::slice::slice_to_vec(vstd::slice::slice_subrange(s, start, n));
    let ghost old_parts = parts@;
    parts.push(field);
    proof {
        let suf = s@.subrange(start as int, n as int);
        lemma_split_no_comma(suf);
        assert(views_of(parts@) =~= views_of(old_parts) + seq![suf]);
        assert(views_of(parts@) =~= split_commas(s@));
    }
    parts
}

/// Is the byte sequence a valid UTF-8 encoding? Checks each scalar in
/// turn: a well-formed leading byte, its continuation bytes, no overlong
/// encoding, no surrogate, nothing above the last Unicode scalar.
pub fn is_utf8(s: &[u8]) -> (r: bool)
    ensures
        r == valid_utf8(s@),
{
    let n = s.len();
    assert(s@.subrange(0, n as int) =~= s@);
    let mut i: usize = 0;
    while i < n
        invariant
            0 <= i <= n,
            n == s@.len(),
            valid_utf8(s@) == valid_utf8(s@.subrange(i as int, n as int)),
        decreases n - i,
    {
        let ghost suf = s@.subrange(i as int, n as int);
        let b0 = s[i];
        let width: usize;
        if b0 <= 0x7f {
            // one byte: the codepoint is the byte, never overlong or a surrogate
            proof {
                assert(b0 & 0x7f == b0) by (bit_vector)
                    requires
                        b0 <= 0x7f,
                ;
            }
            width = 1;
        } else if 0xc0 <= b0 && b0 <= 0xdf {
            if n - i < 2 || !(0x80 <= s[i + 1] && s[i + 1] <= 0xbf) {
                assert(!valid_leading_and_continuation_bytes_first_codepoint(suf));
                return false;
            }
            let b1 = s[i + 1];
            let cp: u32 = (((b0 & 0x1f) as u32) << 6) | ((b1 & 0x3f) as u32);
            assert(cp == decode_first_codepoint(suf));
            proof {
                // a two-byte sequence stays below the surrogate range
                assert(cp <= 0x7ff) by (bit_vector)
                    requires
                        cp == ((((b0 & 0x1f) as u32) << 6) | ((b1 & 0x3f) as u32)),
                ;
            }
            if cp < 0x80 {
                // overlong: two bytes for a one-byte value
                assert(!valid_first_scalar(suf));
                return false;
            }
            width = 2;
        } else if 0xe0 <= b0 && b0 <= 0xef {
            if n - i < 3 || !(0x80 <= s[i + 1] && s[i + 1] <= 0xbf) || !(0x80 <= s[i + 2] && s[i
                + 2] <= 0xbf) {
                assert(!valid_leading_and_continuation_bytes_first_codepoint(suf));
                return false;
            }
            let cp: u32 = (((b0 & 0x0f) as u32) << 12) | (((s[i + 1] & 0x3f) as u32) << 6) | ((s[i
                + 2] & 0x3f) as u32);
            assert(cp == decode_first_codepoint(suf));
            if cp < 0x800 || (0xd800 <= cp && cp <= 0xdfff) {
                // overlong or a surrogate
                assert(!valid_first_scalar(suf));
                return false;
            }
            width = 3;
        } else if 0xf0 <= b0 && b0 <= 0xf7 {
            if n - i < 4 || !(0x80 <= s[i + 1] && s[i + 1] <= 0xbf) || !(0x80 <= s[i + 2] && s[i
                + 2] <= 0xbf) || !(0x80 <= s[i + 3] && s[i + 3] <= 0xbf) {
                assert(!valid_leading_and_continuation_bytes_first_codepoint(suf));
                return false;
            }
            let cp: u32 = (((b0 & 0x07) as u32) << 18) | (((s[i + 1] & 0x3f) as u32) << 12) | (((s[
                i + 2] & 0x3f) as u32) << 6) | ((s[i + 3] & 0x3f) as u32);
            assert(cp == decode_first_codepoint(suf));
            if cp < 0x10000 || cp > 0x10ffff {
                // overlong, or beyond the last Unicode scalar
                assert(!valid_first_scalar(suf));
                return false;
            }
            width = 4;
        } else {
            // a stray continuation byte, or an impossible leading byte
            assert(!valid_leading_and_continuation_bytes_first_codepoint(suf));
            return false;
        }
        proof {
            assert(valid_first_scalar(suf));
            assert(length_of_first_scalar(suf) == width);
            assert(pop_first_scalar(suf) =~= s@.subrange(i + width, n as int));
        }
        i = i + width;
    }
    assert(valid_utf8(s@.subrange(n as int, n as int)));
    true
}

/// The decoded meaning of an inbound datagram.
pub enum Decoded {
    /// `res,<id>,<payload>`: the reply to the pending call `id`.
    Reply { id: Seq<u8>, payload: Seq<u8> },
    /// `pos,<x>,<y>,<dir>`: a pose report in raw device units.
    Position { x: int, y: int, dir: int },
    /// Anything else: discarded without effect.
    Ignored,
}

pub open spec fn tag_res() -> Seq<u8> {
    seq![0x72u8, 0x65u8, 0x73u8]
}

pub open spec fn tag_pos() -> Seq<u8> {
    seq![0x70u8, 0x6fu8, 0x73u8]
}

/// What an inbound datagram means: a reply when the first field is `res`
/// and an identifier and payload field follow; a pose report when it is
/// `pos` and three integer fields follow; noise otherwise. The datagram is
/// text: bytes that are not valid UTF-8 are discarded whole. Fields are
/// trimmed of surrounding ASCII whitespace before they are read — the wire
/// format is ASCII, so non-ASCII Unicode whitespace counts as field
/// content, deliberately.
pub open spec fn decode(s: Seq<u8>) -> Decoded {
    if !valid_utf8(s) {
        Decoded::Ignored
    } else {
        decode_text(s)
    }
}

/// The meaning of a datagram already known to be text.
pub open spec fn decode_text(s: Seq<u8>) -> Decoded {
    let parts = split_commas(s);
    let tag = trimmed(parts[0]);
    if tag == tag_res() && parts.len() >= 3 {
        Decoded::Reply { id: trimmed(parts[1]), payload: trimmed(parts[2]) }
    } else if tag == tag_pos() && parts.len() >= 4 && is_i32_token(trimmed(parts[1]))
        && is_i32_token(trimmed(parts[2])) && is_i32_token(trimmed(parts[3])) {
        Decoded::Position {
            x: int_token_value(trimmed(parts[1])),
            y: int_token_value(trimmed(parts[2])),
            dir: int_token_value(trimmed(parts[3])),
        }
    } else {
        Decoded::Ignored
    }
}

/// An inbound datagram, decoded.
pub enum Datagram {
    Reply { id: Vec<u8>, payload: Vec<u8> },
    Position { x: i32, y: i32, dir: i32 },
    Ignored,
}

impl Datagram {
    pub open spec fn view(self) -> Decoded {
        match self {
            Datagram::Reply { id, payload } => Decoded::Reply { id: id@, payload: payload@ },
            Datagram::Position { x, y, dir } => Decoded::Position {
                x: x as int,
                y: y as int,
                dir: dir as int,
            },
            Datagram::Ignored => Decoded::Ignored,
        }
    }
}

/// Decode one inbound datagram.
pub fn decode_datagram(data: &[u8]) -> (d: Datagram)
    ensures
        d@ == decode(data@),
{
    if !is_utf8(data) {
        return Datagram::Ignored;
    }
    proof {
        lemma_split_nonempty(data@);
    }
    let parts = split_commas_exec(data);
    let ghost sparts = split_commas(data@);
    assert(parts@.len() == sparts.len());
    assert(forall|j: int| 0 <= j < parts@.len() ==> (#[trigger] parts@[j])@ == sparts[j]);
    let tag = trim(&parts[0]);
    let ghost stag = trimmed(sparts[0]);
    if tag.len() == 3 && tag[0] == 0x72 && tag[1] == 0x65 && tag[2] == 0x73 {
        assert(stag =~= tag_res());
        if parts.len() >= 3 {
            let id = vstd::slice::slice_to_vec(trim(&parts[1]));
            let payload = vstd::slice::slice_to_vec(trim(&parts[2]));
            return Datagram::Reply { id, payload };
        }
        assert(decode(data@) is Ignored);
        return Datagram::Ignored;
    }
    assert(stag != tag_res()) by {
        if stag == tag_res() {
            assert(stag.len() == 3 && stag[0] == 0x72 && stag[1] == 0x65 && stag[2] == 0x73);
        }
    }
    if tag.len() == 3 && tag[0] == 0x70 && tag[1] == 0x6f && tag[2] == 0x73 {
        assert(stag =~= tag_pos());
        if parts.len() >= 4 {
            let t1 = trim(&parts[1]);
            let t2 = trim(&parts[2]);
            let t3 = trim(&parts[3]);
            let p1 = crate::parse::parse_i32(t1);
            let p2 = crate::parse::parse_i32(t2);
            let p3 = crate::parse::parse_i32(t3);
            match (p1, p2, p3) {
                (Some(x), Some(y), Some(dir)) => {
                    return Datagram::Position { x, y, dir };
                },
                _ => {
                    assert(decode(data@) is Ignored);
                    return Datagram::Ignored;
                },
            }
        }
        assert(decode(data@) is Ignored);
        return Datagram::Ignored;
    }
    assert(stag != tag_pos()) by {
        if stag == tag_pos() {
            assert(stag.len() == 3 && stag[0] == 0x70 && stag[1] == 0x6f && stag[2] == 0x73);
        }
    }
    Datagram::Ignored
}

/// A parameter on the wire: bare when it reads as a 32-bit integer,
/// wrapped in double quotes otherwise.
pub open spec fn encode_param(p: Seq<u8>) -> Seq<u8> {
    if is_i32_token(p) {
        p
    } else {
        seq![BYTE_QUOTE] + p + seq![BYTE_QUOTE]
    }
}

/// The parameter segment: encoded parameters joined by commas.
pub open spec fn encode_params(ps: Seq<Seq<u8>>) -> Seq<u8>
    decreases ps.len(),
{
    if ps.len() == 0 {
        Seq::empty()
    } else if ps.len() == 1 {
        encode_param(ps[0])
    } else {
        encode_params(ps.drop_last()) + seq![BYTE_COMMA] + encode_param(ps.last())
    }
}

/// The flag field: `1` when a reply is expected, else `0`.
pub open spec fn flag_byte(expects_reply: bool) -> u8 {
    if expects_reply {
        0x31
    } else {
        0x30
    }
}

/// A whole outbound message: `<flag>,<id>,<name>`, and `,<params>` when
/// there are parameters.
pub open spec fn encode_message(
    expects_reply: bool,
    id: Seq<u8>,
    func: Seq<u8>,
    ps: Seq<Seq<u8>>,
) -> Seq<u8> {
    let head = seq![flag_byte(expects_reply), BYTE_COMMA] + id + seq![BYTE_COMMA] + func;
    if ps.len() == 0 {
        head
    } else {
        head + seq![BYTE_COMMA] + encode_params(ps)
    }
}

/// Append `src` to `dst`.
pub fn extend_bytes(dst: &mut Vec<u8>, src: &[u8])
    ensures
        final(dst)@ == old(dst)@ + src@,
{
    let n = src.len();
    let mut i: usize = 0;
    while i < n
        invariant
            0 <= i <= n,
            n == src@.len(),
            dst@ =~= old(dst)@ + src@.subrange(0, i as int),
        decreases n - i,
    {
        dst.push(src[i]);
        assert(src@.subrange(0, i + 1 as int) =~= src@.subrange(0, i as int).push(
            src@[i as int],
        ));
        i = i + 1;
    }
    assert(src@.subrange(0, n as int) =~= src@);
    assert(dst@ =~= old(dst)@ + src@);
}

/// Encode one parameter.
pub fn encode_param_exec(p: &[u8]) -> (r: Vec<u8>)
    ensures
        r@ == encode_param(p@),
{
    let is_int = crate::parse::parse_i32(p).is_some();
    if is_int {
        vstd::slice::slice_to_vec(p)
    } else {
        let mut r: Vec<u8> = Vec::new();
        r.push(BYTE_QUOTE);
        extend_bytes(&mut r, p);
        r.push(BYTE_QUOTE);
        assert(r@ =~= seq![BYTE_QUOTE] + p@ + seq![BYTE_QUOTE]);
        r
    }
}

/// Compose a whole outbound message from its fields.
pub fn encode_message_exec(
    expects_reply: bool,
    id: &[u8],
    func: &[u8],
    params: &Vec<Vec<u8>>,
) -> (msg: Vec<u8>)
    ensures
        msg@ == encode_message(expects_reply, id@, func@, views_of(params@)),
{
    let ghost ps = views_of(params@);
    let mut msg: Vec<u8> = Vec::new();
    msg.push(if expects_reply {
        0x31
    } else {
        0x30
    });
    msg.push(BYTE_COMMA);
    extend_bytes(&mut msg, id);
    msg.push(BYTE_COMMA);
    extend_bytes(&mut msg, func);
    let ghost head = seq![flag_byte(expects_reply), BYTE_COMMA] + id@ + seq![BYTE_COMMA]
        + func@;
    assert(msg@ =~= head);
    let n = params.len();
    let mut i: usize = 0;
    while i < n
        invariant
            0 <= i <= n,
            n == params@.len(),
            ps == views_of(params@),
            i == 0 ==> msg@ == head,
            i > 0 ==> msg@ =~= head + seq![BYTE_COMMA] + encode_params(ps.subrange(0, i as int)),
        decreases n - i,
    {
        let one = encode_param_exec(&params[i]);
        msg.push(BYTE_COMMA);
        extend_bytes(&mut msg, &one);
        proof {
            let pre = ps.subrange(0, i as int);
            let cur = ps.subrange(0, i + 1 as int);
            assert(cur.drop_last() =~= pre);
            assert(cur.last() == ps[i as int]);
            assert(ps[i as int] == params@[i as int]@);
            if i == 0 {
                assert(cur.len() == 1);
                assert(encode_params(cur) == encode_param(cur[0]));
                assert(msg@ =~= head + seq![BYTE_COMMA] + encode_params(cur));
            } else {
                assert(encode_params(cur) == encode_params(pre) + seq![BYTE_COMMA]
                    + encode_param(ps[i as int]));
                assert(msg@ =~= head + seq![BYTE_COMMA] + encode_params(cur));
            }
        }
        i = i + 1;
    }
    proof {
        if n > 0 {
            assert(ps.subrange(0, n as int) =~= ps);
        }
    }
    msg
}

} // verus!
