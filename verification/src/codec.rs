//! Byte codec for cached entity payloads.
//!
//! The storage engine persists every entity as an opaque byte blob. Entities
//! serialize themselves as a *field record*: a counted list of tagged fields,
//! each a string, an optional string, an unsigned integer or a string list.
//! Strings are UTF-8 with a length prefix; integers are 64-bit little-endian.
//! Decoding is proved to invert encoding ([`lemma_record_round_trip`]).

use vstd::prelude::*;
use vstd::bytes::{spec_u64_from_le_bytes, spec_u64_to_le_bytes, u64_from_le_bytes, u64_to_le_bytes};
use vstd::utf8::{decode_utf8, encode_utf8, valid_utf8};
use vstd::slice::{slice_subrange, slice_to_vec};
use vstd::string::StrSliceExecFns;

verus! {

broadcast use vstd::utf8::encode_utf8_valid_utf8, vstd::utf8::encode_utf8_decode_utf8;

/// One field of an entity payload.
pub enum FieldValue {
    Text(String),
    OptText(Option<String>),
    Uint(u64),
    TextList(Vec<String>),
}

/// Mathematical image of a [`FieldValue`].
#[verifier::ext_equal]
pub enum FieldView {
    Text(Seq<char>),
    OptText(Option<Seq<char>>),
    Uint(u64),
    TextList(Seq<Seq<char>>),
}

impl View for FieldValue {
    type V = FieldView;

    open spec fn view(&self) -> FieldView {
        match self {
            FieldValue::Text(s) => FieldView::Text(s@),
            FieldValue::OptText(o) => FieldView::OptText(
                match o {
                    Some(s) => Some(s@),
                    None => None,
                },
            ),
            FieldValue::Uint(n) => FieldView::Uint(*n),
            FieldValue::TextList(l) => FieldView::TextList(l.deep_view()),
        }
    }
}

impl DeepView for FieldValue {
    type V = FieldView;

    open spec fn deep_view(&self) -> FieldView {
        self.view()
    }
}

/// Relies on `String::from_utf8`: succeeds exactly on valid UTF-8 input and
/// decodes those bytes.
#[verifier::external_body]
fn utf8_string(b: Vec<u8>) -> (r: Option<String>)
    ensures
        match r {
            Some(s) => valid_utf8(b@) && s@ == decode_utf8(b@),
            None => !valid_utf8(b@),
        },
{
    String::from_utf8(b).ok()
}

// ---------------------------------------------------------------------------
// Encoders (specification)
// ---------------------------------------------------------------------------

pub open spec fn enc_u64(n: u64) -> Seq<u8> {
    spec_u64_to_le_bytes(n)
}

pub open spec fn enc_bytes(b: Seq<u8>) -> Seq<u8> {
    enc_u64(b.len() as u64) + b
}

pub open spec fn enc_str(s: Seq<char>) -> Seq<u8> {
    enc_bytes(encode_utf8(s))
}

pub open spec fn enc_opt_str(o: Option<Seq<char>>) -> Seq<u8> {
    match o {
        None => seq![0u8],
        Some(s) => seq![1u8] + enc_str(s),
    }
}

pub open spec fn enc_str_cat(l: Seq<Seq<char>>) -> Seq<u8>
    decreases l.len(),
{
    if l.len() == 0 {
        Seq::empty()
    } else {
        enc_str(l[0]) + enc_str_cat(l.drop_first())
    }
}

pub open spec fn enc_str_list(l: Seq<Seq<char>>) -> Seq<u8> {
    enc_u64(l.len() as u64) + enc_str_cat(l)
}

pub open spec fn enc_field(f: FieldView) -> Seq<u8> {
    match f {
        FieldView::Text(s) => seq![1u8] + enc_str(s),
        FieldView::OptText(o) => seq![2u8] + enc_opt_str(o),
        FieldView::Uint(n) => seq![3u8] + enc_u64(n),
        FieldView::TextList(l) => seq![4u8] + enc_str_list(l),
    }
}

pub open spec fn enc_field_cat(fs: Seq<FieldView>) -> Seq<u8>
    decreases fs.len(),
{
    if fs.len() == 0 {
        Seq::empty()
    } else {
        enc_field(fs[0]) + enc_field_cat(fs.drop_first())
    }
}

/// The full payload of a field record.
pub open spec fn spec_record_encode(fs: Seq<FieldView>) -> Seq<u8> {
    enc_u64(fs.len() as u64) + enc_field_cat(fs)
}

// ---------------------------------------------------------------------------
// Size bounds (encoders truncate counts that exceed a `u64`; every value the
// executable code builds is within these bounds)
// ---------------------------------------------------------------------------

pub open spec fn str_bounded(s: Seq<char>) -> bool {
    encode_utf8(s).len() <= u64::MAX
}

pub open spec fn field_bounded(f: FieldView) -> bool {
    match f {
        FieldView::Text(s) => str_bounded(s),
        FieldView::OptText(o) => match o {
            Some(s) => str_bounded(s),
            None => true,
        },
        FieldView::Uint(_) => true,
        FieldView::TextList(l) => l.len() <= u64::MAX && forall|i: int|
            0 <= i < l.len() ==> str_bounded(#[trigger] l[i]),
    }
}

pub open spec fn fields_bounded(fs: Seq<FieldView>) -> bool {
    fs.len() <= u64::MAX && forall|i: int| 0 <= i < fs.len() ==> field_bounded(#[trigger] fs[i])
}

// ---------------------------------------------------------------------------
// Readers (specification)
// ---------------------------------------------------------------------------

pub open spec fn rd_u64(d: Seq<u8>, pos: int) -> Option<(u64, int)> {
    if 0 <= pos && pos + 8 <= d.len() {
        Some((spec_u64_from_le_bytes(d.subrange(pos, pos + 8)), pos + 8))
    } else {
        None
    }
}

pub open spec fn rd_bytes(d: Seq<u8>, pos: int) -> Option<(Seq<u8>, int)> {
    match rd_u64(d, pos) {
        None => None,
        Some((n, p)) => if p + n <= d.len() {
            Some((d.subrange(p, p + n), p + n))
        } else {
            None
        },
    }
}

pub open spec fn rd_str(d: Seq<u8>, pos: int) -> Option<(Seq<char>, int)> {
    match rd_bytes(d, pos) {
        None => None,
        Some((b, p)) => if valid_utf8(b) {
            Some((decode_utf8(b), p))
        } else {
            None
        },
    }
}

pub open spec fn rd_opt_str(d: Seq<u8>, pos: int) -> Option<(Option<Seq<char>>, int)> {
    if 0 <= pos && pos + 1 <= d.len() {
        if d[pos] == 0u8 {
            Some((None, pos + 1))
        } else if d[pos] == 1u8 {
            match rd_str(d, pos + 1) {
                None => None,
                Some((s, p)) => Some((Some(s), p)),
            }
        } else {
            None
        }
    } else {
        None
    }
}

pub open spec fn rd_str_cat(d: Seq<u8>, pos: int, n: int) -> Option<(Seq<Seq<char>>, int)>
    decreases n,
{
    if n <= 0 {
        Some((Seq::empty(), pos))
    } else {
        match rd_str(d, pos) {
            None => None,
            Some((s, p)) => match rd_str_cat(d, p, n - 1) {
                None => None,
                Some((rest, end)) => Some((seq![s] + rest, end)),
            },
        }
    }
}

pub open spec fn rd_str_list(d: Seq<u8>, pos: int) -> Option<(Seq<Seq<char>>, int)> {
    match rd_u64(d, pos) {
        None => None,
        Some((n, p)) => rd_str_cat(d, p, n as int),
    }
}

pub open spec fn rd_field(d: Seq<u8>, pos: int) -> Option<(FieldView, int)> {
    if 0 <= pos && pos + 1 <= d.len() {
        if d[pos] == 1u8 {
            match rd_str(d, pos + 1) {
                None => None,
                Some((s, p)) => Some((FieldView::Text(s), p)),
            }
        } else if d[pos] == 2u8 {
            match rd_opt_str(d, pos + 1) {
                None => None,
                Some((o, p)) => Some((FieldView::OptText(o), p)),
            }
        } else if d[pos] == 3u8 {
            match rd_u64(d, pos + 1) {
                None => None,
                Some((n, p)) => Some((FieldView::Uint(n), p)),
            }
        } else if d[pos] == 4u8 {
            match rd_str_list(d, pos + 1) {
                None => None,
                Some((l, p)) => Some((FieldView::TextList(l), p)),
            }
        } else {
            None
        }
    } else {
        None
    }
}

pub open spec fn rd_field_cat(d: Seq<u8>, pos: int, n: int) -> Option<(Seq<FieldView>, int)>
    decreases n,
{
    if n <= 0 {
        Some((Seq::empty(), pos))
    } else {
        match rd_field(d, pos) {
            None => None,
            Some((f, p)) => match rd_field_cat(d, p, n - 1) {
                None => None,
                Some((rest, end)) => Some((seq![f] + rest, end)),
            },
        }
    }
}

/// A whole payload decodes to a field record exactly when the reader chain
/// succeeds and consumes every byte.
pub open spec fn spec_record_decode(d: Seq<u8>) -> Option<Seq<FieldView>> {
    match rd_u64(d, 0) {
        None => None,
        Some((n, p)) => match rd_field_cat(d, p, n as int) {
            None => None,
            Some((fs, end)) => if end == d.len() {
                Some(fs)
            } else {
                None
            },
        },
    }
}

// ---------------------------------------------------------------------------
// Round-trip lemmas: reading from a buffer that carries an encoding at `pos`
// yields the encoded value.
// ---------------------------------------------------------------------------

proof fn lemma_rd_u64_enc(n: u64, d: Seq<u8>, pos: int)
    requires
        0 <= pos,
        pos + enc_u64(n).len() <= d.len(),
        d.subrange(pos, pos + enc_u64(n).len()) == enc_u64(n),
    ensures
        rd_u64(d, pos) == Some((n, pos + enc_u64(n).len())),
{
    vstd::bytes::lemma_auto_spec_u64_to_from_le_bytes();
}

proof fn lemma_rd_bytes_enc(b: Seq<u8>, d: Seq<u8>, pos: int)
    requires
        0 <= pos,
        b.len() <= u64::MAX,
        pos + enc_bytes(b).len() <= d.len(),
        d.subrange(pos, pos + enc_bytes(b).len()) == enc_bytes(b),
    ensures
        rd_bytes(d, pos) == Some((b, pos + enc_bytes(b).len())),
{
    vstd::bytes::lemma_auto_spec_u64_to_from_le_bytes();
    let w = enc_u64(b.len() as u64);
    let total = enc_bytes(b).len();
    assert(d.subrange(pos, pos + 8) =~= d.subrange(pos, pos + total).subrange(0, 8));
    assert(d.subrange(pos, pos + 8) =~= w);
    lemma_rd_u64_enc(b.len() as u64, d, pos);
    assert(d.subrange(pos + 8, pos + total) =~= d.subrange(pos, pos + total).subrange(
        8,
        total as int,
    ));
    assert(d.subrange(pos + 8, pos + total) =~= b);
}

proof fn lemma_rd_str_enc(s: Seq<char>, d: Seq<u8>, pos: int)
    requires
        0 <= pos,
        str_bounded(s),
        pos + enc_str(s).len() <= d.len(),
        d.subrange(pos, pos + enc_str(s).len()) == enc_str(s),
    ensures
        rd_str(d, pos) == Some((s, pos + enc_str(s).len())),
{
    lemma_rd_bytes_enc(encode_utf8(s), d, pos);
}

proof fn lemma_rd_opt_str_enc(o: Option<Seq<char>>, d: Seq<u8>, pos: int)
    requires
        0 <= pos,
        match o {
            Some(s) => str_bounded(s),
            None => true,
        },
        pos + enc_opt_str(o).len() <= d.len(),
        d.subrange(pos, pos + enc_opt_str(o).len()) == enc_opt_str(o),
    ensures
        rd_opt_str(d, pos) == Some((o, pos + enc_opt_str(o).len())),
{
    let total = enc_opt_str(o).len();
    assert(d[pos] == d.subrange(pos, pos + total)[0]);
    match o {
        None => {
            assert(d[pos] == 0u8);
        }
        Some(s) => {
            assert(d[pos] == 1u8);
            assert(d.subrange(pos + 1, pos + total) =~= d.subrange(pos, pos + total).subrange(
                1,
                total as int,
            ));
            assert(d.subrange(pos + 1, pos + total) =~= enc_str(s));
            lemma_rd_str_enc(s, d, pos + 1);
        }
    }
}

proof fn lemma_rd_str_cat_enc(l: Seq<Seq<char>>, d: Seq<u8>, pos: int)
    requires
        0 <= pos,
        forall|i: int| 0 <= i < l.len() ==> str_bounded(#[trigger] l[i]),
        pos + enc_str_cat(l).len() <= d.len(),
        d.subrange(pos, pos + enc_str_cat(l).len()) == enc_str_cat(l),
    ensures
        rd_str_cat(d, pos, l.len() as int) == Some((l, pos + enc_str_cat(l).len())),
    decreases l.len(),
{
    if l.len() == 0 {
        assert(l =~= Seq::<Seq<char>>::empty());
    } else {
        let head = enc_str(l[0]);
        let total = enc_str_cat(l).len();
        assert(enc_str_cat(l) == head + enc_str_cat(l.drop_first()));
        assert(d.subrange(pos, pos + head.len()) =~= d.subrange(pos, pos + total).subrange(
            0,
            head.len() as int,
        ));
        assert(d.subrange(pos, pos + head.len()) =~= head);
        lemma_rd_str_enc(l[0], d, pos);
        let p1 = pos + head.len();
        assert(d.subrange(p1, pos + total) =~= d.subrange(pos, pos + total).subrange(
            head.len() as int,
            total as int,
        ));
        assert(d.subrange(p1, pos + total) =~= enc_str_cat(l.drop_first()));
        lemma_rd_str_cat_enc(l.drop_first(), d, p1);
        assert(seq![l[0]] + l.drop_first() =~= l);
    }
}

proof fn lemma_rd_field_enc(f: FieldView, d: Seq<u8>, pos: int)
    requires
        0 <= pos,
        field_bounded(f),
        pos + enc_field(f).len() <= d.len(),
        d.subrange(pos, pos + enc_field(f).len()) == enc_field(f),
    ensures
        rd_field(d, pos) == Some((f, pos + enc_field(f).len())),
{
    let total = enc_field(f).len();
    assert(d[pos] == d.subrange(pos, pos + total)[0]);
    assert(d.subrange(pos + 1, pos + total) =~= d.subrange(pos, pos + total).subrange(
        1,
        total as int,
    ));
    match f {
        FieldView::Text(s) => {
            assert(d.subrange(pos + 1, pos + total) =~= enc_str(s));
            lemma_rd_str_enc(s, d, pos + 1);
        }
        FieldView::OptText(o) => {
            assert(d.subrange(pos + 1, pos + total) =~= enc_opt_str(o));
            lemma_rd_opt_str_enc(o, d, pos + 1);
        }
        FieldView::Uint(n) => {
            assert(d.subrange(pos + 1, pos + total) =~= enc_u64(n));
            lemma_rd_u64_enc(n, d, pos + 1);
        }
        FieldView::TextList(l) => {
            assert(d.subrange(pos + 1, pos + total) =~= enc_str_list(l));
            let w = enc_u64(l.len() as u64);
            assert(d.subrange(pos + 1, pos + 1 + w.len()) =~= d.subrange(
                pos + 1,
                pos + total,
            ).subrange(0, w.len() as int));
            assert(d.subrange(pos + 1, pos + 1 + w.len()) =~= w);
            lemma_rd_u64_enc(l.len() as u64, d, pos + 1);
            vstd::bytes::lemma_auto_spec_u64_to_from_le_bytes();
            let p1 = pos + 1 + w.len();
            assert(d.subrange(p1, pos + total) =~= d.subrange(pos + 1, pos + total).subrange(
                w.len() as int,
                (total - 1) as int,
            ));
            assert(d.subrange(p1, pos + total) =~= enc_str_cat(l));
            lemma_rd_str_cat_enc(l, d, p1);
        }
    }
}

proof fn lemma_rd_field_cat_enc(fs: Seq<FieldView>, d: Seq<u8>, pos: int)
    requires
        0 <= pos,
        forall|i: int| 0 <= i < fs.len() ==> field_bounded(#[trigger] fs[i]),
        pos + enc_field_cat(fs).len() <= d.len(),
        d.subrange(pos, pos + enc_field_cat(fs).len()) == enc_field_cat(fs),
    ensures
        rd_field_cat(d, pos, fs.len() as int) == Some((fs, pos + enc_field_cat(fs).len())),
    decreases fs.len(),
{
    if fs.len() == 0 {
        assert(fs =~= Seq::<FieldView>::empty());
    } else {
        let head = enc_field(fs[0]);
        let total = enc_field_cat(fs).len();
        assert(enc_field_cat(fs) == head + enc_field_cat(fs.drop_first()));
        assert(d.subrange(pos, pos + head.len()) =~= d.subrange(pos, pos + total).subrange(
            0,
            head.len() as int,
        ));
        assert(d.subrange(pos, pos + head.len()) =~= head);
        lemma_rd_field_enc(fs[0], d, pos);
        let p1 = pos + head.len();
        assert(d.subrange(p1, pos + total) =~= d.subrange(pos, pos + total).subrange(
            head.len() as int,
            total as int,
        ));
        assert(d.subrange(p1, pos + total) =~= enc_field_cat(fs.drop_first()));
        lemma_rd_field_cat_enc(fs.drop_first(), d, p1);
        assert(seq![fs[0]] + fs.drop_first() =~= fs);
    }
}

proof fn lemma_enc_str_cat_push(l: Seq<Seq<char>>, s: Seq<char>)
    ensures
        enc_str_cat(l.push(s)) == enc_str_cat(l) + enc_str(s),
    decreases l.len(),
{
    let ls = l.push(s);
    assert(ls.len() > 0 && ls[0] == if l.len() == 0 { s } else { l[0] });
    if l.len() == 0 {
        assert(ls.drop_first() =~= Seq::<Seq<char>>::empty());
        assert(enc_str_cat(ls.drop_first()) == Seq::<u8>::empty());
        assert(enc_str_cat(ls) == enc_str(s) + Seq::<u8>::empty());
        assert(enc_str(s) + Seq::<u8>::empty() =~= Seq::<u8>::empty() + enc_str(s));
        assert(enc_str_cat(l) == Seq::<u8>::empty());
    } else {
        assert(ls.drop_first() =~= l.drop_first().push(s));
        lemma_enc_str_cat_push(l.drop_first(), s);
        assert(enc_str_cat(ls) == enc_str(l[0]) + (enc_str_cat(l.drop_first()) + enc_str(s)));
        assert(enc_str(l[0]) + (enc_str_cat(l.drop_first()) + enc_str(s)) =~= (enc_str(l[0])
            + enc_str_cat(l.drop_first())) + enc_str(s));
    }
}

proof fn lemma_enc_field_cat_push(fs: Seq<FieldView>, f: FieldView)
    ensures
        enc_field_cat(fs.push(f)) == enc_field_cat(fs) + enc_field(f),
    decreases fs.len(),
{
    let ls = fs.push(f);
    assert(ls.len() > 0 && ls[0] == if fs.len() == 0 { f } else { fs[0] });
    if fs.len() == 0 {
        assert(ls.drop_first() =~= Seq::<FieldView>::empty());
        assert(enc_field_cat(ls.drop_first()) == Seq::<u8>::empty());
        assert(enc_field_cat(ls) == enc_field(f) + Seq::<u8>::empty());
        assert(enc_field(f) + Seq::<u8>::empty() =~= Seq::<u8>::empty() + enc_field(f));
        assert(enc_field_cat(fs) == Seq::<u8>::empty());
    } else {
        assert(ls.drop_first() =~= fs.drop_first().push(f));
        lemma_enc_field_cat_push(fs.drop_first(), f);
        assert(enc_field_cat(ls) == enc_field(fs[0]) + (enc_field_cat(fs.drop_first())
            + enc_field(f)));
        assert(enc_field(fs[0]) + (enc_field_cat(fs.drop_first()) + enc_field(f)) =~= (enc_field(
            fs[0],
        ) + enc_field_cat(fs.drop_first())) + enc_field(f));
    }
}

// ---------------------------------------------------------------------------
// Executable encoder
// ---------------------------------------------------------------------------

fn write_u64(buf: &mut Vec<u8>, n: u64)
    ensures
        final(buf)@ == old(buf)@ + enc_u64(n),
{
    let mut b = u64_to_le_bytes(n);
    buf.append(&mut b);
}

fn write_str(buf: &mut Vec<u8>, s: &str)
    ensures
        final(buf)@ == old(buf)@ + enc_str(s@),
        str_bounded(s@),
{
    let mut bytes = s.as_bytes_vec();
    let len = bytes.len();
    proof {
        assert(len <= usize::MAX);
        assert(usize::MAX <= u64::MAX);
    }
    write_u64(buf, len as u64);
    buf.append(&mut bytes);
}

fn write_opt_str(buf: &mut Vec<u8>, o: &Option<String>)
    ensures
        final(buf)@ == old(buf)@ + enc_opt_str(
            match o {
                Some(s) => Some(s@),
                None => None,
            },
        ),
        match o {
            Some(s) => str_bounded(s@),
            None => true,
        },
{
    match o {
        None => {
            buf.push(0u8);
            proof {
                assert(buf@ =~= old(buf)@ + seq![0u8]);
            }
        }
        Some(s) => {
            buf.push(1u8);
            proof {
                assert(buf@ =~= old(buf)@ + seq![1u8]);
            }
            write_str(buf, s.as_str());
            proof {
                assert((old(buf)@ + seq![1u8]) + enc_str(s@) =~= old(buf)@ + (seq![1u8]
                    + enc_str(s@)));
            }
        }
    }
}

fn write_field(buf: &mut Vec<u8>, f: &FieldValue)
    ensures
        final(buf)@ == old(buf)@ + enc_field(f@),
        field_bounded(f@),
{
    match f {
        FieldValue::Text(s) => {
            buf.push(1u8);
            proof {
                assert(buf@ =~= old(buf)@ + seq![1u8]);
            }
            write_str(buf, s.as_str());
            proof {
                assert((old(buf)@ + seq![1u8]) + enc_str(s@) =~= old(buf)@ + enc_field(f@));
            }
        }
        FieldValue::OptText(o) => {
            buf.push(2u8);
            proof {
                assert(buf@ =~= old(buf)@ + seq![2u8]);
            }
            write_opt_str(buf, o);
            proof {
                assert((old(buf)@ + seq![2u8]) + enc_opt_str(f@->OptText_0) =~= old(buf)@
                    + enc_field(f@));
            }
        }
        FieldValue::Uint(n) => {
            buf.push(3u8);
            proof {
                assert(buf@ =~= old(buf)@ + seq![3u8]);
            }
            write_u64(buf, *n);
            proof {
                assert((old(buf)@ + seq![3u8]) + enc_u64(*n) =~= old(buf)@ + enc_field(f@));
            }
        }
        FieldValue::TextList(l) => {
            buf.push(4u8);
            proof {
                assert(buf@ =~= old(buf)@ + seq![4u8]);
            }
            write_u64(buf, l.len() as u64);
            let ghost base = buf@;
            let n = l.len();
            let mut i: usize = 0;
            while i < n
                invariant
                    n == l.len(),
                    0 <= i <= n,
                    buf@ == base + enc_str_cat(l.deep_view().take(i as int)),
                    forall|j: int| 0 <= j < i ==> str_bounded(#[trigger] l.deep_view()[j]),
                decreases n - i,
            {
                proof {
                    assert(enc_str_cat(l.deep_view().take(i as int)) == enc_str_cat(
                        l.deep_view().take(i as int),
                    ));
                }
                write_str(buf, l[i].as_str());
                proof {
                    lemma_enc_str_cat_push(l.deep_view().take(i as int), l.deep_view()[i as int]);
                    assert(l.deep_view().take(i as int).push(l.deep_view()[i as int])
                        =~= l.deep_view().take(i + 1));
                    assert(buf@ =~= base + enc_str_cat(l.deep_view().take(i + 1)));
                }
                i += 1;
            }
            proof {
                assert(l.deep_view().take(n as int) =~= l.deep_view());
                assert(buf@ =~= old(buf)@ + enc_field(f@));
                assert(l.deep_view().len() <= u64::MAX);
            }
        }
    }
}

/// Serialize a field record.
pub fn record_encode(fs: &Vec<FieldValue>) -> (r: Vec<u8>)
    ensures
        r@ == spec_record_encode(fs.deep_view()),
        fields_bounded(fs.deep_view()),
{
    let mut buf: Vec<u8> = Vec::new();
    write_u64(&mut buf, fs.len() as u64);
    let ghost base = buf@;
    let n = fs.len();
    let mut i: usize = 0;
    while i < n
        invariant
            n == fs.len(),
            0 <= i <= n,
            buf@ == base + enc_field_cat(fs.deep_view().take(i as int)),
            forall|j: int| 0 <= j < i ==> field_bounded(#[trigger] fs.deep_view()[j]),
        decreases n - i,
    {
        write_field(&mut buf, &fs[i]);
        proof {
            lemma_enc_field_cat_push(fs.deep_view().take(i as int), fs.deep_view()[i as int]);
            assert(fs.deep_view().take(i as int).push(fs.deep_view()[i as int])
                =~= fs.deep_view().take(i + 1));
            assert(buf@ =~= base + enc_field_cat(fs.deep_view().take(i + 1)));
        }
        i += 1;
    }
    proof {
        assert(fs.deep_view().take(n as int) =~= fs.deep_view());
        assert(buf@ =~= spec_record_encode(fs.deep_view()));
    }
    buf
}

// ---------------------------------------------------------------------------
// Executable decoder
// ---------------------------------------------------------------------------

fn read_u64(d: &Vec<u8>, pos: usize) -> (r: Option<(u64, usize)>)
    ensures
        match r {
            Some((n, p)) => rd_u64(d@, pos as int) == Some((n, p as int)) && p <= d@.len(),
            None => rd_u64(d@, pos as int) is None,
        },
{
    if pos > d.len() || d.len() - pos < 8 {
        return None;
    }
    let s = slice_subrange(d.as_slice(), pos, pos + 8);
    let n = u64_from_le_bytes(s);
    Some((n, pos + 8))
}

fn read_str(d: &Vec<u8>, pos: usize) -> (r: Option<(String, usize)>)
    ensures
        match r {
            Some((s, p)) => rd_str(d@, pos as int) == Some((s@, p as int)) && p <= d@.len(),
            None => rd_str(d@, pos as int) is None,
        },
{
    let (n, p) = match read_u64(d, pos) {
        Some(x) => x,
        None => {
            return None;
        }
    };
    if n > (d.len() - p) as u64 {
        return None;
    }
    let nn = n as usize;
    let s = slice_subrange(d.as_slice(), p, p + nn);
    let bytes = slice_to_vec(s);
    match utf8_string(bytes) {
        Some(st) => Some((st, p + nn)),
        None => None,
    }
}

fn read_opt_str(d: &Vec<u8>, pos: usize) -> (r: Option<(Option<String>, usize)>)
    ensures
        match r {
            Some((o, p)) => rd_opt_str(d@, pos as int) == Some(
                (
                    match o {
                        Some(s) => Some(s@),
                        None => None,
                    },
                    p as int,
                ),
            ) && p <= d@.len(),
            None => rd_opt_str(d@, pos as int) is None,
        },
{
    if pos >= d.len() {
        return None;
    }
    let tag = d[pos];
    if tag == 0u8 {
        Some((None, pos + 1))
    } else if tag == 1u8 {
        match read_str(d, pos + 1) {
            Some((s, p)) => Some((Some(s), p)),
            None => None,
        }
    } else {
        None
    }
}

fn read_field(d: &Vec<u8>, pos: usize) -> (r: Option<(FieldValue, usize)>)
    ensures
        match r {
            Some((f, p)) => rd_field(d@, pos as int) == Some((f@, p as int)) && p <= d@.len(),
            None => rd_field(d@, pos as int) is None,
        },
{
    if pos >= d.len() {
        return None;
    }
    let tag = d[pos];
    if tag == 1u8 {
        match read_str(d, pos + 1) {
            Some((s, p)) => Some((FieldValue::Text(s), p)),
            None => None,
        }
    } else if tag == 2u8 {
        match read_opt_str(d, pos + 1) {
            Some((o, p)) => Some((FieldValue::OptText(o), p)),
            None => None,
        }
    } else if tag == 3u8 {
        match read_u64(d, pos + 1) {
            Some((n, p)) => Some((FieldValue::Uint(n), p)),
            None => None,
        }
    } else if tag == 4u8 {
        let (n, p) = match read_u64(d, pos + 1) {
            Some(x) => x,
            None => {
                return None;
            }
        };
        let mut items: Vec<String> = Vec::new();
        let mut cur: usize = p;
        let mut i: u64 = 0;
        while i < n
            invariant
                0 <= i <= n,
                cur <= d@.len(),
                pos < d@.len(),
                d@[pos as int] == 4u8,
                rd_u64(d@, pos as int + 1) == Some((n, p as int)),
                match rd_str_cat(d@, cur as int, n as int - i as int) {
                    Some((rest, end)) => rd_str_cat(d@, p as int, n as int) == Some(
                        (items.deep_view() + rest, end),
                    ),
                    None => rd_str_cat(d@, p as int, n as int) is None,
                },
            decreases n - i,
        {
            match read_str(d, cur) {
                Some((s, p2)) => {
                    proof {
                        let k = n as int - i as int;
                        assert(rd_str_cat(d@, cur as int, k) == match rd_str_cat(
                            d@,
                            p2 as int,
                            k - 1,
                        ) {
                            Some((rest, end)) => Some((seq![s@] + rest, end)),
                            None => None::<(Seq<Seq<char>>, int)>,
                        });
                    }
                    let ghost prev = items.deep_view();
                    let ghost sv = s@;
                    items.push(s);
                    cur = p2;
                    proof {
                        assert(items.deep_view() =~= prev.push(sv));
                        let k = n as int - i as int;
                        match rd_str_cat(d@, cur as int, k - 1) {
                            Some((rest, end)) => {
                                assert(prev + (seq![sv] + rest) =~= items.deep_view() + rest);
                            }
                            None => {}
                        }
                    }
                }
                None => {
                    proof {
                        let k = n as int - i as int;
                        assert(rd_str_cat(d@, cur as int, k) is None);
                        assert(rd_str_cat(d@, p as int, n as int) is None);
                        assert(rd_field(d@, pos as int) is None);
                    }
                    return None;
                }
            }
            i += 1;
        }
        proof {
            assert(items.deep_view() + Seq::<Seq<char>>::empty() =~= items.deep_view());
        }
        Some((FieldValue::TextList(items), cur))
    } else {
        None
    }
}

/// Deserialize a field record; `None` on any malformed payload.
pub fn record_decode(d: &Vec<u8>) -> (r: Option<Vec<FieldValue>>)
    ensures
        match r {
            Some(v) => spec_record_decode(d@) == Some(v.deep_view()),
            None => spec_record_decode(d@) is None,
        },
{
    let (count, p0) = match read_u64(d, 0) {
        Some(x) => x,
        None => {
            return None;
        }
    };
    let mut acc: Vec<FieldValue> = Vec::new();
    let mut pos: usize = p0;
    let mut i: u64 = 0;
    while i < count
        invariant
            0 <= i <= count,
            pos <= d@.len(),
            rd_u64(d@, 0) == Some((count, p0 as int)),
            match rd_field_cat(d@, pos as int, count as int - i as int) {
                Some((rest, end)) => rd_field_cat(d@, p0 as int, count as int) == Some(
                    (acc.deep_view() + rest, end),
                ),
                None => rd_field_cat(d@, p0 as int, count as int) is None,
            },
        decreases count - i,
    {
        match read_field(d, pos) {
            Some((f, p2)) => {
                proof {
                    let k = count as int - i as int;
                    assert(rd_field_cat(d@, pos as int, k) == match rd_field_cat(
                        d@,
                        p2 as int,
                        k - 1,
                    ) {
                        Some((rest, end)) => Some((seq![f@] + rest, end)),
                        None => None::<(Seq<FieldView>, int)>,
                    });
                }
                let ghost prev = acc.deep_view();
                let ghost fv = f@;
                acc.push(f);
                pos = p2;
                proof {
                    assert(acc.deep_view() =~= prev.push(fv));
                    let k = count as int - i as int;
                    match rd_field_cat(d@, pos as int, k - 1) {
                        Some((rest, end)) => {
                            assert(prev + (seq![fv] + rest) =~= acc.deep_view() + rest);
                        }
                        None => {}
                    }
                }
            }
            None => {
                proof {
                    let k = count as int - i as int;
                    assert(rd_field_cat(d@, pos as int, k) is None);
                    assert(rd_field_cat(d@, p0 as int, count as int) is None);
                    assert(spec_record_decode(d@) is None);
                }
                return None;
            }
        }
        i += 1;
    }
    proof {
        assert(rd_field_cat(d@, pos as int, 0) == Some((Seq::<FieldView>::empty(), pos as int)));
        assert(acc.deep_view() + Seq::<FieldView>::empty() =~= acc.deep_view());
    }
    if pos == d.len() {
        Some(acc)
    } else {
        None
    }
}

/// Decoding inverts encoding, for any record within the size bounds.
pub proof fn lemma_record_round_trip(fs: Seq<FieldView>)
    requires
        fields_bounded(fs),
    ensures
        spec_record_decode(spec_record_encode(fs)) == Some(fs),
{
    vstd::bytes::lemma_auto_spec_u64_to_from_le_bytes();
    let d = spec_record_encode(fs);
    let w = enc_u64(fs.len() as u64);
    assert(d.subrange(0, w.len() as int) =~= w);
    lemma_rd_u64_enc(fs.len() as u64, d, 0);
    assert(d.subrange(w.len() as int, d.len() as int) =~= enc_field_cat(fs));
    lemma_rd_field_cat_enc(fs, d, w.len() as int);
}

} // verus!
