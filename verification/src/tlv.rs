use vstd::prelude::*;

use crate::registry::spec_tag_name;
use crate::registry::get_name_by_id;

verus! {

/// Why a decode failed: the input ended before a tag identifier, a length
/// field or a value was fully present, or the hex front door was handed
/// text that is not a hex encoding.
#[derive(Clone, Copy, Debug, PartialEq, Eq, Structural)]
pub enum DecodeError {
    TruncatedInput,
    InvalidHex,
}

/// One decoded TLV element: its identifier bytes, resolved name, declared
/// length, raw value bytes, and how many constructed tags enclose it.
#[derive(Debug, Clone)]
pub struct Tag {
    pub id: Vec<u8>,
    pub name: &'static str,
    pub length: usize,
    pub value: Vec<u8>,
    pub nest_level: usize,
}

/// The mathematical model of a decoded element, over sequences and
/// unbounded integers.
#[verifier::ext_equal]
pub ghost struct GTag {
    pub id: Seq<u8>,
    pub name: Seq<char>,
    pub length: nat,
    pub value: Seq<u8>,
    pub nest_level: nat,
}

impl View for Tag {
    type V = GTag;

    open spec fn view(&self) -> GTag {
        GTag {
            id: self.id@,
            name: self.name@,
            length: self.length as nat,
            value: self.value@,
            nest_level: self.nest_level as nat,
        }
    }
}

/// A first identifier byte with bit 0x20 set marks a constructed element,
/// whose value is itself a TLV stream.
pub open spec fn spec_is_constructed(b: u8) -> bool {
    b & 0x20 == 0x20
}

impl Tag {
    /// Whether this element is constructed, read off the first identifier
    /// byte.
    pub fn is_constructed(&self) -> (r: bool)
        requires
            self.id@.len() > 0,
        ensures
            r == spec_is_constructed(self.id@[0]),
    {
        (self.id[0] & 0x20) == 0x20
    }
}

/// An identifier whose first byte has all of its low five bits set carries
/// exactly one continuation byte; every other identifier is one byte long.
pub open spec fn spec_id_len(b: u8) -> int {
    if b & 0x1F == 0x1F {
        2
    } else {
        1
    }
}

/// The value of a byte sequence combined most-significant-first.
pub open spec fn spec_be_value(bs: Seq<u8>) -> nat
    decreases bs.len(),
{
    if bs.len() == 0 {
        0
    } else {
        spec_be_value(bs.drop_last()) * 256 + bs.last() as nat
    }
}

/// Whether `data` starts with a complete tag identifier and length field.
pub open spec fn spec_header_ok(data: Seq<u8>) -> bool {
    &&& data.len() >= 1
    &&& data.len() >= spec_id_len(data[0]) + 1
    &&& {
        let idl = spec_id_len(data[0]);
        let lb = data[idl];
        lb & 0x80 == 0 || data.len() >= idl + 1 + (lb & 0x7F) as int
    }
}

/// The byte count of the identifier plus the length field at the head of
/// `data`. Meaningful only when `spec_header_ok(data)` holds.
pub open spec fn spec_header_size(data: Seq<u8>) -> int {
    let idl = spec_id_len(data[0]);
    let lb = data[idl];
    if lb & 0x80 == 0 {
        idl + 1
    } else {
        idl + 1 + (lb & 0x7F) as int
    }
}

/// The value length declared by the length field at the head of `data`:
/// the length byte itself in short form, or the following big-endian bytes
/// combined in long form. Meaningful only when `spec_header_ok(data)` holds.
pub open spec fn spec_declared_len(data: Seq<u8>) -> nat {
    let idl = spec_id_len(data[0]);
    let lb = data[idl];
    if lb & 0x80 == 0 {
        lb as nat
    } else {
        spec_be_value(data.subrange(idl + 1, idl + 1 + (lb & 0x7F) as int))
    }
}

/// Whether `data` starts with one complete element: header and value bytes
/// fully present.
pub open spec fn spec_elem_ok(data: Seq<u8>) -> bool {
    &&& spec_header_ok(data)
    &&& data.len() >= spec_header_size(data) + spec_declared_len(data)
}

/// The total byte count of the first element of `data`. Meaningful only
/// when `spec_elem_ok(data)` holds.
pub open spec fn spec_elem_size(data: Seq<u8>) -> int {
    spec_header_size(data) + spec_declared_len(data)
}

/// A tag as it appears spliced into its parent's output: one nesting level
/// deeper, otherwise unchanged.
pub open spec fn spec_bump(t: GTag) -> GTag {
    GTag {
        id: t.id,
        name: t.name,
        length: t.length,
        value: t.value,
        nest_level: t.nest_level + 1,
    }
}

pub open spec fn spec_bump_all(ts: Seq<GTag>) -> Seq<GTag> {
    ts.map_values(|t: GTag| spec_bump(t))
}

/// The model of a sequence of decoded tags.
pub open spec fn tags_view(ts: Seq<Tag>) -> Seq<GTag> {
    ts.map_values(|t: Tag| t@)
}

/// Splices already-decoded tags in front of the outcome of decoding the
/// remaining bytes.
pub open spec fn spec_prepend(
    prefix: Seq<GTag>,
    r: Result<Seq<GTag>, DecodeError>,
) -> Result<Seq<GTag>, DecodeError> {
    match r {
        Ok(ts) => Ok(prefix + ts),
        Err(e) => Err(e),
    }
}

/// What decoding a byte sequence yields: the pre-order sequence of decoded
/// tags, a constructed tag immediately followed by all of its descendants
/// one level deeper, or `TruncatedInput` when any identifier, length field
/// or value is cut short.
pub open spec fn spec_decode(data: Seq<u8>) -> Result<Seq<GTag>, DecodeError>
    decreases data.len(),
{
    if data.len() == 0 {
        Ok(Seq::empty())
    } else if !spec_elem_ok(data) {
        Err(DecodeError::TruncatedInput)
    } else {
        let h = spec_header_size(data);
        let len = spec_declared_len(data) as int;
        let id = data.subrange(0, spec_id_len(data[0]));
        let value = data.subrange(h, h + len);
        let rest = data.subrange(h + len, data.len() as int);
        let tag = GTag {
            id: id,
            name: spec_tag_name(id),
            length: spec_declared_len(data),
            value: value,
            nest_level: 0,
        };
        let nested = if spec_is_constructed(data[0]) {
            spec_decode(value)
        } else {
            Ok(Seq::empty())
        };
        match (nested, spec_decode(rest)) {
            (Ok(ns), Ok(rs)) => Ok(seq![tag] + spec_bump_all(ns) + rs),
            _ => Err(DecodeError::TruncatedInput),
        }
    }
}

/// Bounds of the first element's header, unfolded from the definitions.
proof fn lemma_elem_bounds(data: Seq<u8>)
    requires
        data.len() >= 1,
        spec_elem_ok(data),
    ensures
        1 <= spec_id_len(data[0]) <= 2,
        spec_id_len(data[0]) + 1 <= spec_header_size(data),
        2 <= spec_header_size(data),
        spec_header_size(data) + spec_declared_len(data) <= data.len(),
{
}

/// The value combined from a prefix of the length bytes never exceeds the
/// value combined from all of them.
proof fn lemma_be_value_prefix_le(bs: Seq<u8>, j: int)
    requires
        0 <= j <= bs.len(),
    ensures
        spec_be_value(bs.subrange(0, j)) <= spec_be_value(bs),
    decreases bs.len() - j,
{
    if j == bs.len() {
        assert(bs.subrange(0, j) =~= bs);
    } else {
        assert(bs.subrange(0, j + 1).drop_last() =~= bs.subrange(0, j));
        assert(spec_be_value(bs.subrange(0, j)) <= spec_be_value(bs.subrange(0, j + 1)));
        lemma_be_value_prefix_le(bs, j + 1);
    }
}

/// The only failure a decode reports is `TruncatedInput`.
pub proof fn lemma_decode_err_is_truncated(data: Seq<u8>)
    ensures
        spec_decode(data) is Err ==> spec_decode(data) == Err::<Seq<GTag>, DecodeError>(
            DecodeError::TruncatedInput,
        ),
{
}

/// Every decoded tag sits at a nesting depth bounded by the input length:
/// each enclosing level costs at least two header bytes.
pub proof fn lemma_nest_level_bound(data: Seq<u8>, ts: Seq<GTag>)
    requires
        spec_decode(data) == Ok::<Seq<GTag>, DecodeError>(ts),
    ensures
        forall|i: int| 0 <= i < ts.len() ==> 2 * (#[trigger] ts[i]).nest_level + 2 <= data.len(),
    decreases data.len(),
{
    if data.len() == 0 || !spec_elem_ok(data) {
    } else {
        let h = spec_header_size(data);
        let len = spec_declared_len(data) as int;
        let value = data.subrange(h, h + len);
        let rest = data.subrange(h + len, data.len() as int);
        lemma_elem_bounds(data);
        let ns = if spec_is_constructed(data[0]) {
            spec_decode(value)->Ok_0
        } else {
            Seq::<GTag>::empty()
        };
        let rs = spec_decode(rest)->Ok_0;
        if spec_is_constructed(data[0]) {
            lemma_nest_level_bound(value, ns);
        }
        lemma_nest_level_bound(rest, rs);
        assert forall|i: int| 0 <= i < ts.len() implies 2 * (#[trigger] ts[i]).nest_level + 2
            <= data.len() by {
            if i == 0 {
            } else if i <= ns.len() {
                assert(ts[i] == spec_bump_all(ns)[i - 1]);
                assert(spec_bump_all(ns)[i - 1] == spec_bump(ns[i - 1]));
                assert(2 * ns[i - 1].nest_level + 2 <= value.len());
            } else {
                assert(ts[i] == rs[i - 1 - ns.len()]);
            }
        }
    }
}

/// What a decode guarantees of each tag it emits: the identifier is one
/// byte, or two when its first byte marks a continuation; the declared
/// length counts exactly the value bytes; and the name is the registry
/// entry for the identifier, or the sentinel "unknown".
pub open spec fn spec_tag_wf(t: GTag) -> bool {
    &&& t.id.len() == spec_id_len(t.id[0])
    &&& t.length == t.value.len()
    &&& t.name == spec_tag_name(t.id)
}

/// Every tag of a successful decode is well-formed: in particular every
/// identifier absent from the registry carries the sentinel name, and the
/// decode succeeded regardless.
pub proof fn lemma_decoded_tags_wf(data: Seq<u8>, ts: Seq<GTag>)
    requires
        spec_decode(data) == Ok::<Seq<GTag>, DecodeError>(ts),
    ensures
        forall|i: int| 0 <= i < ts.len() ==> spec_tag_wf(#[trigger] ts[i]),
    decreases data.len(),
{
    if data.len() == 0 || !spec_elem_ok(data) {
    } else {
        let h = spec_header_size(data);
        let len = spec_declared_len(data) as int;
        let value = data.subrange(h, h + len);
        let rest = data.subrange(h + len, data.len() as int);
        lemma_elem_bounds(data);
        let ns = if spec_is_constructed(data[0]) {
            spec_decode(value)->Ok_0
        } else {
            Seq::<GTag>::empty()
        };
        let rs = spec_decode(rest)->Ok_0;
        if spec_is_constructed(data[0]) {
            lemma_decoded_tags_wf(value, ns);
        }
        lemma_decoded_tags_wf(rest, rs);
        assert forall|i: int| 0 <= i < ts.len() implies spec_tag_wf(#[trigger] ts[i]) by {
            if i == 0 {
                assert(ts[0].id == data.subrange(0, spec_id_len(data[0])));
                assert(ts[0].id[0] == data[0]);
            } else if i <= ns.len() {
                assert(ts[i] == spec_bump_all(ns)[i - 1]);
                assert(spec_bump_all(ns)[i - 1] == spec_bump(ns[i - 1]));
                assert(spec_tag_wf(ns[i - 1]));
            } else {
                assert(ts[i] == rs[i - 1 - ns.len()]);
            }
        }
    }
}

/// An identifier absent from the registry does not fail the decode: the
/// tag is emitted like any other and carries the sentinel name "unknown".
pub proof fn lemma_unknown_sentinel(data: Seq<u8>, ts: Seq<GTag>, i: int)
    requires
        spec_decode(data) == Ok::<Seq<GTag>, DecodeError>(ts),
        0 <= i < ts.len(),
        crate::registry::spec_registry_name(ts[i].id) is None,
    ensures
        ts[i].name == "unknown"@,
{
    lemma_decoded_tags_wf(data, ts);
    assert(spec_tag_wf(ts[i]));
}

/// Recursive closure: the value bytes of every constructed tag found in a
/// successful decode themselves decode successfully.
pub proof fn lemma_constructed_closure(data: Seq<u8>, ts: Seq<GTag>)
    requires
        spec_decode(data) == Ok::<Seq<GTag>, DecodeError>(ts),
    ensures
        forall|i: int|
            0 <= i < ts.len() && spec_is_constructed((#[trigger] ts[i]).id[0]) ==> spec_decode(
                ts[i].value,
            ) is Ok,
    decreases data.len(),
{
    if data.len() == 0 || !spec_elem_ok(data) {
    } else {
        let h = spec_header_size(data);
        let len = spec_declared_len(data) as int;
        let value = data.subrange(h, h + len);
        let rest = data.subrange(h + len, data.len() as int);
        lemma_elem_bounds(data);
        let ns = if spec_is_constructed(data[0]) {
            spec_decode(value)->Ok_0
        } else {
            Seq::<GTag>::empty()
        };
        let rs = spec_decode(rest)->Ok_0;
        if spec_is_constructed(data[0]) {
            lemma_constructed_closure(value, ns);
        }
        lemma_constructed_closure(rest, rs);
        assert forall|i: int|
            0 <= i < ts.len() && spec_is_constructed(
                (#[trigger] ts[i]).id[0],
            ) implies spec_decode(ts[i].value) is Ok by {
            if i == 0 {
                assert(ts[0].id[0] == data[0]);
                assert(ts[0].value == value);
            } else if i <= ns.len() {
                assert(ts[i] == spec_bump_all(ns)[i - 1]);
                assert(spec_bump_all(ns)[i - 1] == spec_bump(ns[i - 1]));
                assert(ts[i].id == ns[i - 1].id && ts[i].value == ns[i - 1].value);
            } else {
                assert(ts[i] == rs[i - 1 - ns.len()]);
            }
        }
    }
}

/// A prefix long enough to hold the whole first element agrees with the
/// full input on that element.
proof fn lemma_prefix_same_element(data: Seq<u8>, k: int)
    requires
        data.len() > 0,
        spec_elem_ok(data),
        spec_elem_size(data) <= k <= data.len(),
    ensures
        ({
            let p = data.subrange(0, k);
            &&& spec_elem_ok(p)
            &&& spec_header_size(p) == spec_header_size(data)
            &&& spec_declared_len(p) == spec_declared_len(data)
            &&& spec_id_len(p[0]) == spec_id_len(data[0])
            &&& p.subrange(0, spec_id_len(p[0])) == data.subrange(0, spec_id_len(data[0]))
            &&& p.subrange(spec_header_size(p), spec_elem_size(p)) == data.subrange(
                spec_header_size(data),
                spec_elem_size(data),
            )
        }),
{
    let p = data.subrange(0, k);
    lemma_elem_bounds(data);
    let idl = spec_id_len(data[0]);
    assert(p[0] == data[0]);
    assert(p[idl] == data[idl]);
    let lb = data[idl];
    if lb & 0x80 != 0 {
        let n = (lb & 0x7F) as int;
        assert(p.subrange(idl + 1, idl + 1 + n) =~= data.subrange(idl + 1, idl + 1 + n));
    }
    assert(p.subrange(0, idl) =~= data.subrange(0, idl));
    assert(p.subrange(spec_header_size(data), spec_elem_size(data)) =~= data.subrange(
        spec_header_size(data),
        spec_elem_size(data),
    ));
}

/// Cutting the input anywhere strictly inside its first element — in the
/// identifier, the length field or the value — makes the decode fail with
/// `TruncatedInput`.
pub proof fn lemma_truncated_element(data: Seq<u8>, k: int)
    requires
        data.len() > 0,
        spec_elem_ok(data),
        0 < k < spec_elem_size(data),
    ensures
        spec_decode(data.subrange(0, k)) == Err::<Seq<GTag>, DecodeError>(
            DecodeError::TruncatedInput,
        ),
{
    let p = data.subrange(0, k);
    lemma_elem_bounds(data);
    let idl = spec_id_len(data[0]);
    assert(p[0] == data[0]);
    if k < idl + 1 {
        assert(!spec_header_ok(p));
    } else {
        assert(p[idl] == data[idl]);
        let lb = data[idl];
        if lb & 0x80 == 0 {
            assert(!spec_elem_ok(p));
        } else {
            let n = (lb & 0x7F) as int;
            if k < idl + 1 + n {
                assert(!spec_header_ok(p));
            } else {
                assert(p.subrange(idl + 1, idl + 1 + n) =~= data.subrange(idl + 1, idl + 1 + n));
                assert(spec_declared_len(p) == spec_declared_len(data));
                assert(!spec_elem_ok(p));
            }
        }
    }
    lemma_decode_truncated(p);
}

/// Whether `k` bytes into `data` is a boundary between top-level elements:
/// zero, or the size of the first element plus a boundary of what follows.
pub open spec fn spec_is_boundary(data: Seq<u8>, k: int) -> bool
    decreases data.len(),
{
    if k == 0 {
        true
    } else if data.len() == 0 || !spec_elem_ok(data) {
        false
    } else {
        proof {
            lemma_boundary_decreases(data);
        }
        &&& k >= spec_elem_size(data)
        &&& spec_is_boundary(
            data.subrange(spec_elem_size(data), data.len() as int),
            k - spec_elem_size(data),
        )
    }
}

pub proof fn lemma_boundary_decreases(data: Seq<u8>)
    requires
        data.len() > 0,
        spec_elem_ok(data),
    ensures
        data.subrange(spec_elem_size(data), data.len() as int).len() < data.len(),
{
    lemma_elem_bounds(data);
}

/// A prefix of a decodable input decodes exactly when it is cut at a
/// boundary between elements: any cut strictly inside an element — in an
/// identifier, a length field or a value — fails with `TruncatedInput`.
pub proof fn lemma_decode_prefix(data: Seq<u8>, k: int)
    requires
        spec_decode(data) is Ok,
        0 <= k <= data.len(),
    ensures
        spec_decode(data.subrange(0, k)) is Ok <==> spec_is_boundary(data, k),
        !spec_is_boundary(data, k) ==> spec_decode(data.subrange(0, k)) == Err::<
            Seq<GTag>,
            DecodeError,
        >(DecodeError::TruncatedInput),
    decreases data.len(),
{
    let p = data.subrange(0, k);
    if k == 0 {
        assert(p =~= Seq::<u8>::empty());
    } else {
        assert(data.len() > 0);
        assert(spec_elem_ok(data));
        let sz = spec_elem_size(data);
        lemma_elem_bounds(data);
        if k < sz {
            lemma_truncated_element(data, k);
        } else {
            lemma_prefix_same_element(data, k);
            let h = spec_header_size(data);
            let len = spec_declared_len(data) as int;
            let value = data.subrange(h, h + len);
            let rest = data.subrange(sz, data.len() as int);
            let prest = p.subrange(sz, k);
            assert(prest =~= rest.subrange(0, k - sz));
            assert(p.subrange(h, h + len) =~= value);
            lemma_decode_prefix(rest, k - sz);
            assert((spec_decode(p) is Ok) <==> (spec_decode(prest) is Ok)) by {
                if spec_is_constructed(data[0]) {
                    assert(spec_decode(value) is Ok);
                }
            }
            if spec_decode(p) is Err {
                lemma_decode_err_is_truncated(p);
            }
        }
    }
}

/// Prepending nothing changes nothing.
proof fn lemma_prepend_empty(r: Result<Seq<GTag>, DecodeError>)
    ensures
        spec_prepend(Seq::empty(), r) == r,
{
    match r {
        Ok(ts) => {
            assert(Seq::<GTag>::empty() + ts =~= ts);
        },
        Err(_) => {
        },
    }
}

/// Prepending twice is prepending the concatenation.
proof fn lemma_prepend_assoc(a: Seq<GTag>, b: Seq<GTag>, r: Result<Seq<GTag>, DecodeError>)
    ensures
        spec_prepend(a, spec_prepend(b, r)) == spec_prepend(a + b, r),
{
    match r {
        Ok(ts) => {
            assert(a + (b + ts) =~= (a + b) + ts);
        },
        Err(_) => {
        },
    }
}

/// A nonempty input whose first element is cut short fails to decode.
proof fn lemma_decode_truncated(data: Seq<u8>)
    requires
        data.len() > 0,
        !spec_elem_ok(data),
    ensures
        spec_decode(data) == Err::<Seq<GTag>, DecodeError>(DecodeError::TruncatedInput),
{
}

/// One unfolding step of `spec_decode`: a complete first element, decoded
/// together with its nested contents, stands in front of the decode of the
/// remaining bytes.
proof fn lemma_decode_step(data: Seq<u8>, gtag: GTag, nested_model: Seq<GTag>)
    requires
        data.len() > 0,
        spec_elem_ok(data),
        gtag == (GTag {
            id: data.subrange(0, spec_id_len(data[0])),
            name: spec_tag_name(data.subrange(0, spec_id_len(data[0]))),
            length: spec_declared_len(data),
            value: data.subrange(spec_header_size(data), spec_elem_size(data)),
            nest_level: 0,
        }),
        spec_is_constructed(data[0]) ==> spec_decode(
            data.subrange(spec_header_size(data), spec_elem_size(data)),
        ) == Ok::<Seq<GTag>, DecodeError>(nested_model),
        !spec_is_constructed(data[0]) ==> nested_model == Seq::<GTag>::empty(),
    ensures
        spec_decode(data) == spec_prepend(
            seq![gtag] + spec_bump_all(nested_model),
            spec_decode(data.subrange(spec_elem_size(data), data.len() as int)),
        ),
{
    let rest = data.subrange(spec_elem_size(data), data.len() as int);
    match spec_decode(rest) {
        Ok(rs) => {
            assert(seq![gtag] + spec_bump_all(nested_model) + rs =~= (seq![gtag] + spec_bump_all(
                nested_model,
            )) + rs);
        },
        Err(_) => {
        },
    }
}

/// A complete constructed element whose nested contents fail to decode
/// makes the whole decode fail.
proof fn lemma_decode_step_err(data: Seq<u8>)
    requires
        data.len() > 0,
        spec_elem_ok(data),
        spec_is_constructed(data[0]),
        spec_decode(data.subrange(spec_header_size(data), spec_elem_size(data))) is Err,
    ensures
        spec_decode(data) == Err::<Seq<GTag>, DecodeError>(DecodeError::TruncatedInput),
{
}

/// Reads the tag identifier and the length field at `index`, and checks
/// that the declared count of value bytes is still present. On success the
/// identifier bytes, the header size and the declared length come back; on
/// failure the element is cut short.
#[verifier::loop_isolation(false)]
fn parse_header(data: &[u8], index: usize) -> (r: Result<(Vec<u8>, usize, usize), DecodeError>)
    requires
        index < data@.len(),
    ensures
        ({
            let suffix = data@.subrange(index as int, data@.len() as int);
            match r {
                Ok((id, hsz, length)) => {
                    &&& spec_elem_ok(suffix)
                    &&& id@ == suffix.subrange(0, spec_id_len(suffix[0]))
                    &&& hsz == spec_header_size(suffix)
                    &&& length == spec_declared_len(suffix)
                    &&& index + hsz + length <= data@.len()
                },
                Err(e) => e == DecodeError::TruncatedInput && !spec_elem_ok(suffix),
            }
        }),
{
    let ghost suffix = data@.subrange(index as int, data@.len() as int);
    let b0 = data[index];
    let mut id: Vec<u8> = Vec::new();
    id.push(b0);
    let mut j = index + 1;
    if j >= data.len() {
        // one lone byte cannot hold an identifier and a length field
        assert(!spec_header_ok(suffix));
        return Err(DecodeError::TruncatedInput);
    }
    if b0 & 0x1F == 0x1F {
        id.push(data[j]);
        j += 1;
    }
    let ghost idl = spec_id_len(b0);
    proof {
        assert(id@ =~= suffix.subrange(0, idl));
    }
    if j >= data.len() {
        // the length byte is missing
        assert(suffix.len() == idl);
        assert(!spec_header_ok(suffix));
        return Err(DecodeError::TruncatedInput);
    }
    let length_byte = data[j];
    j += 1;
    assert(length_byte == suffix[idl]);
    let length: usize;
    if length_byte & 0x80 == 0 {
        length = length_byte as usize;
        assert(spec_header_ok(suffix));
        assert(spec_header_size(suffix) == j - index);
        assert(spec_declared_len(suffix) == length as nat);
    } else {
        let n = (length_byte & 0x7F) as usize;
        if n > data.len() - j {
            // the long-form length bytes are cut short
            assert(!spec_header_ok(suffix));
            return Err(DecodeError::TruncatedInput);
        }
        let rem: usize = data.len() - j - n;
        let ghost lbytes = data@.subrange(j as int, (j + n) as int);
        proof {
            assert(lbytes =~= suffix.subrange(idl + 1, idl + 1 + n));
            assert(spec_header_ok(suffix));
            assert(spec_header_size(suffix) == idl + 1 + n);
            assert(spec_declared_len(suffix) == spec_be_value(lbytes));
        }
        let mut acc: u128 = 0;
        let mut k: usize = 0;
        proof {
            assert(lbytes.subrange(0, 0) =~= Seq::<u8>::empty());
        }
        while k < n
            invariant
                k <= n,
                acc == spec_be_value(lbytes.subrange(0, k as int)),
                acc <= rem as u128,
            decreases n - k,
        {
            let b = data[j + k];
            proof {
                assert(lbytes.subrange(0, k + 1).drop_last() =~= lbytes.subrange(0, k as int));
                assert(lbytes.subrange(0, k + 1).last() == lbytes[k as int]);
                assert(lbytes[k as int] == data@[j + k]);
            }
            acc = acc * 256 + b as u128;
            assert(acc == spec_be_value(lbytes.subrange(0, k + 1)));
            if acc > rem as u128 {
                proof {
                    lemma_be_value_prefix_le(lbytes, k + 1);
                    assert(spec_declared_len(suffix) > rem as nat);
                    assert(suffix.len() == data@.len() - index);
                    assert(!spec_elem_ok(suffix));
                }
                return Err(DecodeError::TruncatedInput);
            }
            k += 1;
        }
        proof {
            assert(lbytes.subrange(0, n as int) =~= lbytes);
        }
        length = acc as usize;
        j += n;
        assert(spec_declared_len(suffix) == length as nat);
        assert(spec_header_size(suffix) == j - index);
    }
    if length > data.len() - j {
        // fewer value bytes remain than the length field declared
        assert(!spec_elem_ok(suffix));
        return Err(DecodeError::TruncatedInput);
    }
    assert(spec_elem_ok(suffix));
    Ok((id, j - index, length))
}

/// Appends every nested tag to the output, one nesting level deeper, in
/// order.
#[verifier::loop_isolation(false)]
fn push_bumped(tags: &mut Vec<Tag>, nested: Vec<Tag>)
    requires
        forall|i: int| 0 <= i < nested@.len() ==> (#[trigger] nested@[i])@.nest_level + 1
            <= usize::MAX,
    ensures
        tags_view(final(tags)@) == tags_view(old(tags)@) + spec_bump_all(tags_view(nested@)),
{
    let ghost tags0 = old(tags)@;
    let ghost ns0 = nested@;
    let mut rest_nested = nested;
    let ghost mut done: int = 0;
    proof {
        assert(tags_view(tags@) =~= tags_view(tags0) + spec_bump_all(
            ns0.subrange(0, 0).map_values(|x: Tag| x@),
        ));
    }
    while rest_nested.len() > 0
        invariant
            0 <= done <= ns0.len(),
            rest_nested@ == ns0.subrange(done, ns0.len() as int),
            tags_view(tags@) == tags_view(tags0) + spec_bump_all(
                ns0.subrange(0, done).map_values(|x: Tag| x@),
            ),
        decreases ns0.len() - done,
    {
        let mut t = rest_nested.remove(0);
        proof {
            assert(t == ns0[done]);
        }
        t.nest_level = t.nest_level + 1;
        let ghost tags_mid = tags@;
        tags.push(t);
        proof {
            assert(rest_nested@ =~= ns0.subrange(done + 1, ns0.len() as int));
            assert(tags_view(tags@) =~= tags_view(tags_mid) + seq![t@]);
            assert(spec_bump_all(ns0.subrange(0, done + 1).map_values(|x: Tag| x@)) =~=
                spec_bump_all(ns0.subrange(0, done).map_values(|x: Tag| x@)) + seq![t@]);
            assert(tags_view(tags@) =~= tags_view(tags0) + spec_bump_all(
                ns0.subrange(0, done + 1).map_values(|x: Tag| x@),
            ));
            done = done + 1;
        }
    }
    proof {
        assert(ns0.subrange(0, done) =~= ns0);
        assert(ns0.subrange(0, done).map_values(|x: Tag| x@) =~= tags_view(ns0));
    }
}

/// Parses TLV elements out of a byte slice, in stream order, splicing the
/// contents of each constructed element right after it with the nesting
/// level one deeper. The result is exactly what `spec_decode` says for
/// this input; an empty input yields an empty sequence.
#[verifier::loop_isolation(false)]
pub fn parse_tlv_vec(data: &[u8]) -> (r: Result<Vec<Tag>, DecodeError>)
    ensures
        match r {
            Ok(tags) => spec_decode(data@) == Ok::<Seq<GTag>, DecodeError>(tags_view(tags@)),
            Err(e) => spec_decode(data@) == Err::<Seq<GTag>, DecodeError>(e),
        },
    decreases data@.len(),
{
    let mut tags: Vec<Tag> = Vec::new();
    let mut index: usize = 0;
    proof {
        assert(data@.subrange(0, data@.len() as int) =~= data@);
        assert(tags_view(tags@) =~= Seq::<GTag>::empty());
        lemma_prepend_empty(spec_decode(data@));
    }
    while index < data.len()
        invariant
            index <= data@.len(),
            spec_decode(data@) == spec_prepend(
                tags_view(tags@),
                spec_decode(data@.subrange(index as int, data@.len() as int)),
            ),
        decreases data@.len() - index,
    {
        let ghost suffix = data@.subrange(index as int, data@.len() as int);
        let (id, hsz, length) = match parse_header(data, index) {
            Ok(h) => h,
            Err(e) => {
                proof {
                    lemma_decode_truncated(suffix);
                }
                return Err(e);
            },
        };
        proof {
            lemma_elem_bounds(suffix);
        }
        let value_slice = vstd::slice::slice_subrange(data, index + hsz, index + hsz + length);
        let value = vstd::slice::slice_to_vec(value_slice);
        let ghost gvalue = suffix.subrange(hsz as int, hsz + length);
        proof {
            assert(value@ =~= gvalue);
        }
        let id_for_lookup = id.clone();
        proof {
            assert(forall|i: int|
                0 <= i < id@.len() ==> cloned::<u8>(id@[i], #[trigger] id_for_lookup@[i]));
            assert(id_for_lookup@ =~= id@);
        }
        let name = get_name_by_id(id_for_lookup);
        let tag = Tag { id, name, length, value, nest_level: 0 };
        let constructed = tag.is_constructed();
        let ghost gtag = tag@;
        proof {
            assert(gtag =~= GTag {
                id: suffix.subrange(0, spec_id_len(suffix[0])),
                name: spec_tag_name(suffix.subrange(0, spec_id_len(suffix[0]))),
                length: spec_declared_len(suffix),
                value: suffix.subrange(spec_header_size(suffix), spec_elem_size(suffix)),
                nest_level: 0,
            });
        }
        let ghost tags_before = tags@;
        tags.push(tag);
        proof {
            assert(tags_view(tags@) =~= tags_view(tags_before) + seq![gtag]);
        }
        let ghost head: Seq<GTag> = seq![gtag];
        let ghost mut nested_model: Seq<GTag> = Seq::empty();
        if constructed {
            let nested = match parse_tlv_vec(value_slice) {
                Ok(ns) => ns,
                Err(e) => {
                    proof {
                        lemma_decode_err_is_truncated(gvalue);
                        lemma_decode_step_err(suffix);
                    }
                    return Err(e);
                },
            };
            proof {
                nested_model = tags_view(nested@);
                assert(spec_decode(gvalue) == Ok::<Seq<GTag>, DecodeError>(nested_model));
                lemma_nest_level_bound(gvalue, nested_model);
                assert forall|i: int|
                    0 <= i < nested@.len() implies (#[trigger] nested@[i])@.nest_level + 1
                    <= usize::MAX by {
                    assert(nested_model[i] == nested@[i]@);
                    assert(2 * nested_model[i].nest_level + 2 <= gvalue.len());
                }
            }
            push_bumped(&mut tags, nested);
        }
        index = index + hsz + length;
        proof {
            let new_suffix = data@.subrange(index as int, data@.len() as int);
            assert(suffix.subrange(spec_elem_size(suffix), suffix.len() as int) =~= new_suffix);
            lemma_decode_step(suffix, gtag, nested_model);
            assert(tags_view(tags@) =~= tags_view(tags_before) + (head + spec_bump_all(
                nested_model,
            )));
            lemma_prepend_assoc(
                tags_view(tags_before),
                head + spec_bump_all(nested_model),
                spec_decode(new_suffix),
            );
        }
    }
    proof {
        assert(data@.subrange(index as int, data@.len() as int) =~= Seq::<u8>::empty());
        assert(tags_view(tags@) + Seq::<GTag>::empty() =~= tags_view(tags@));
    }
    Ok(tags)
}

} // verus!
