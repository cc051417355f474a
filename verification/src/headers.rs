//! The order-preserving header multimap of a live request.
//!
//! A header is a pair of byte strings. Names are kept in canonical
//! (lower-case) form, as the transport's header table does; values are
//! opaque bytes drawn from the legal header-value alphabet. Appending
//! preserves order and duplicates; inserting replaces every entry of the
//! same name with a single one, at the place of the first.

use vstd::prelude::*;
use vstd::seq_lib::*;
use crate::err::AdapterError;
use crate::text::{is_upper_byte, lower_bytes, to_lower_bytes};

verus! {

/// A byte legal in a header name: the printable subset the transport's
/// name table accepts.
pub open spec fn is_name_byte(b: u8) -> bool {
    ||| b == 33
    ||| (34 <= b <= 39)
    ||| b == 42
    ||| b == 43
    ||| b == 45
    ||| b == 46
    ||| (48 <= b <= 57)
    ||| (65 <= b <= 90)
    ||| (94 <= b <= 122)
    ||| b == 124
    ||| b == 126
}

/// A byte legal in a method token: the name alphabet without the quoting
/// punctuation.
pub open spec fn is_method_byte(b: u8) -> bool {
    ||| b == 33
    ||| b == 42
    ||| b == 43
    ||| b == 45
    ||| b == 46
    ||| (48 <= b <= 57)
    ||| (65 <= b <= 90)
    ||| (94 <= b <= 122)
    ||| b == 124
    ||| b == 126
}

/// A byte legal in a header value: anything but the controls, with the
/// horizontal tab allowed.
pub open spec fn is_value_byte(b: u8) -> bool {
    b >= 32 && b != 127 || b == 9
}

/// A header-value byte that is also text: visible ASCII, space or tab.
pub open spec fn is_text_byte(b: u8) -> bool {
    32 <= b < 127 || b == 9
}

/// A well-formed header name: non-empty, bounded, every byte legal.
pub open spec fn header_name_ok(s: Seq<u8>) -> bool {
    &&& 1 <= s.len() <= 65535
    &&& forall|i: int| 0 <= i < s.len() ==> is_name_byte(s[i])
}

/// A well-formed header name in canonical form: no upper-case letters.
pub open spec fn canonical_name_ok(s: Seq<u8>) -> bool {
    &&& header_name_ok(s)
    &&& forall|i: int| 0 <= i < s.len() ==> !is_upper_byte(s[i])
}

/// A well-formed method token.
pub open spec fn method_token_ok(s: Seq<u8>) -> bool {
    &&& 1 <= s.len()
    &&& forall|i: int| 0 <= i < s.len() ==> is_method_byte(s[i])
}

/// A well-formed header value.
pub open spec fn header_value_ok(s: Seq<u8>) -> bool {
    forall|i: int| 0 <= i < s.len() ==> is_value_byte(s[i])
}

/// A header value that decodes as text.
pub open spec fn value_text_ok(s: Seq<u8>) -> bool {
    forall|i: int| 0 <= i < s.len() ==> is_text_byte(s[i])
}

/// One header of the live request.
pub struct HeaderField {
    /// The canonical (lower-case) header name.
    pub name: Vec<u8>,
    /// The header value bytes.
    pub value: Vec<u8>,
}

impl View for HeaderField {
    type V = (Seq<u8>, Seq<u8>);

    open spec fn view(&self) -> (Seq<u8>, Seq<u8>) {
        (self.name@, self.value@)
    }
}

/// A well-formed header: canonical name, legal value.
pub open spec fn field_wf(f: HeaderField) -> bool {
    &&& canonical_name_ok(f.name@)
    &&& header_value_ok(f.value@)
}

/// The mathematical view of a header list.
pub open spec fn header_views(hs: Seq<HeaderField>) -> Seq<(Seq<u8>, Seq<u8>)> {
    hs.map_values(|f: HeaderField| f@)
}

/// Every header of the list is well-formed.
pub open spec fn headers_wf(hs: Seq<HeaderField>) -> bool {
    forall|i: int| 0 <= i < hs.len() ==> field_wf(#[trigger] hs[i])
}

/// Decides whether a byte string is a legal header name.
pub fn check_header_name(name: &Vec<u8>) -> (r: bool)
    ensures
        r == header_name_ok(name@),
{
    if name.len() == 0 || name.len() > 65535 {
        return false;
    }
    let mut i: usize = 0;
    while i < name.len()
        invariant
            i <= name.len(),
            forall|j: int| 0 <= j < i ==> is_name_byte(name@[j]),
        decreases name.len() - i,
    {
        let b = name[i];
        let ok = b == 33 || (34 <= b && b <= 39) || b == 42 || b == 43 || b == 45 || b == 46
            || (48 <= b && b <= 57) || (65 <= b && b <= 90) || (94 <= b && b <= 122) || b == 124
            || b == 126;
        if !ok {
            return false;
        }
        i += 1;
    }
    true
}

/// Decides whether a byte string is a legal method token.
pub fn check_method_token(m: &Vec<u8>) -> (r: bool)
    ensures
        r == method_token_ok(m@),
{
    if m.len() == 0 {
        return false;
    }
    let mut i: usize = 0;
    while i < m.len()
        invariant
            i <= m.len(),
            forall|j: int| 0 <= j < i ==> is_method_byte(m@[j]),
        decreases m.len() - i,
    {
        let b = m[i];
        let ok = b == 33 || b == 42 || b == 43 || b == 45 || b == 46 || (48 <= b && b <= 57)
            || (65 <= b && b <= 90) || (94 <= b && b <= 122) || b == 124 || b == 126;
        if !ok {
            return false;
        }
        i += 1;
    }
    true
}

/// Decides whether a byte string is a legal header value.
pub fn check_header_value(v: &Vec<u8>) -> (r: bool)
    ensures
        r == header_value_ok(v@),
{
    let mut i: usize = 0;
    while i < v.len()
        invariant
            i <= v.len(),
            forall|j: int| 0 <= j < i ==> is_value_byte(v@[j]),
        decreases v.len() - i,
    {
        let b = v[i];
        if !(b >= 32 && b != 127 || b == 9) {
            return false;
        }
        i += 1;
    }
    true
}

/// Decides whether a header value is text.
pub fn check_value_text(v: &Vec<u8>) -> (r: bool)
    ensures
        r == value_text_ok(v@),
{
    let mut i: usize = 0;
    while i < v.len()
        invariant
            i <= v.len(),
            forall|j: int| 0 <= j < i ==> is_text_byte(v@[j]),
        decreases v.len() - i,
    {
        let b = v[i];
        if !(32 <= b && b < 127 || b == 9) {
            return false;
        }
        i += 1;
    }
    true
}

/// Byte-string equality.
pub fn bytes_eq(a: &Vec<u8>, b: &Vec<u8>) -> (r: bool)
    ensures
        r == (a@ == b@),
{
    if a.len() != b.len() {
        return false;
    }
    let mut i: usize = 0;
    while i < a.len()
        invariant
            i <= a.len(),
            a.len() == b.len(),
            forall|j: int| 0 <= j < i ==> a@[j] == b@[j],
        decreases a.len() - i,
    {
        if a[i] != b[i] {
            return false;
        }
        i += 1;
    }
    proof {
        assert(a@ =~= b@);
    }
    true
}

/// Copies a byte vector.
pub fn copy_bytes(a: &Vec<u8>) -> (r: Vec<u8>)
    ensures
        r@ == a@,
{
    let mut out: Vec<u8> = Vec::new();
    let mut i: usize = 0;
    while i < a.len()
        invariant
            i <= a.len(),
            out@ == a@.take(i as int),
        decreases a.len() - i,
    {
        out.push(a[i]);
        i += 1;
        proof {
            assert(out@ =~= a@.take(i as int));
        }
    }
    proof {
        assert(a@.take(a@.len() as int) =~= a@);
    }
    out
}

impl HeaderField {
    /// Copies one header.
    pub fn duplicate(&self) -> (r: HeaderField)
        ensures
            r@ == self@,
    {
        HeaderField { name: copy_bytes(&self.name), value: copy_bytes(&self.value) }
    }
}

/// Copies a header list.
pub fn copy_headers(hs: &Vec<HeaderField>) -> (r: Vec<HeaderField>)
    ensures
        header_views(r@) == header_views(hs@),
        headers_wf(hs@) ==> headers_wf(r@),
{
    let mut out: Vec<HeaderField> = Vec::new();
    let mut i: usize = 0;
    while i < hs.len()
        invariant
            i <= hs.len(),
            out@.len() == i,
            forall|j: int| 0 <= j < i ==> out@[j]@ == #[trigger] hs@[j]@,
        decreases hs.len() - i,
    {
        out.push(hs[i].duplicate());
        i += 1;
    }
    proof {
        assert(header_views(out@) =~= header_views(hs@));
        if headers_wf(hs@) {
            assert forall|j: int| 0 <= j < out@.len() implies field_wf(#[trigger] out@[j]) by {
                assert(out@[j]@ == hs@[j]@);
                assert(field_wf(hs@[j]));
            }
        }
    }
    out
}

/// The list without the entries of one name, order kept.
pub open spec fn strip_name(hs: Seq<(Seq<u8>, Seq<u8>)>, name: Seq<u8>) -> Seq<(Seq<u8>, Seq<u8>)>
    decreases hs.len(),
{
    if hs.len() == 0 {
        Seq::empty()
    } else if hs[0].0 == name {
        strip_name(hs.drop_first(), name)
    } else {
        seq![hs[0]] + strip_name(hs.drop_first(), name)
    }
}

/// Insertion with replacement: the first entry of the name, if any, takes
/// the new value and keeps its place; every later entry of the name goes;
/// an absent name is appended at the end.
pub open spec fn insert_header(
    hs: Seq<(Seq<u8>, Seq<u8>)>,
    name: Seq<u8>,
    value: Seq<u8>,
) -> Seq<(Seq<u8>, Seq<u8>)>
    decreases hs.len(),
{
    if hs.len() == 0 {
        seq![(name, value)]
    } else if hs[0].0 == name {
        seq![(name, value)] + strip_name(hs.drop_first(), name)
    } else {
        seq![hs[0]] + insert_header(hs.drop_first(), name, value)
    }
}

/// Inserting each incoming header in turn, first to last.
pub open spec fn apply_headers(
    hs: Seq<(Seq<u8>, Seq<u8>)>,
    incoming: Seq<(Seq<u8>, Seq<u8>)>,
) -> Seq<(Seq<u8>, Seq<u8>)>
    decreases incoming.len(),
{
    if incoming.len() == 0 {
        hs
    } else {
        apply_headers(insert_header(hs, incoming[0].0, incoming[0].1), incoming.drop_first())
    }
}

/// The values standing under one name, in order.
pub open spec fn values_of(hs: Seq<(Seq<u8>, Seq<u8>)>, name: Seq<u8>) -> Seq<Seq<u8>>
    decreases hs.len(),
{
    if hs.len() == 0 {
        Seq::empty()
    } else if hs[0].0 == name {
        seq![hs[0].1] + values_of(hs.drop_first(), name)
    } else {
        values_of(hs.drop_first(), name)
    }
}

/// A stripped list holds nothing under the stripped name.
pub proof fn lemma_strip_values(hs: Seq<(Seq<u8>, Seq<u8>)>, name: Seq<u8>)
    ensures
        values_of(strip_name(hs, name), name) =~= Seq::<Seq<u8>>::empty(),
    decreases hs.len(),
{
    if hs.len() > 0 {
        lemma_strip_values(hs.drop_first(), name);
        if hs[0].0 != name {
            assert((seq![hs[0]] + strip_name(hs.drop_first(), name)).drop_first() =~= strip_name(
                hs.drop_first(),
                name,
            ));
        }
    }
}

/// Stripping one name leaves the values of every other name alone.
pub proof fn lemma_strip_other_values(
    hs: Seq<(Seq<u8>, Seq<u8>)>,
    name: Seq<u8>,
    other: Seq<u8>,
)
    requires
        other != name,
    ensures
        values_of(strip_name(hs, name), other) =~= values_of(hs, other),
    decreases hs.len(),
{
    if hs.len() > 0 {
        lemma_strip_other_values(hs.drop_first(), name, other);
        if hs[0].0 != name {
            assert((seq![hs[0]] + strip_name(hs.drop_first(), name)).drop_first() =~= strip_name(
                hs.drop_first(),
                name,
            ));
        }
    }
}

/// After an insertion exactly one value stands under the inserted name:
/// the inserted one.
pub proof fn lemma_insert_values(hs: Seq<(Seq<u8>, Seq<u8>)>, name: Seq<u8>, value: Seq<u8>)
    ensures
        values_of(insert_header(hs, name, value), name) =~= seq![value],
    decreases hs.len(),
{
    reveal_with_fuel(values_of, 3);
    reveal_with_fuel(insert_header, 3);
    reveal_with_fuel(strip_name, 3);
    if hs.len() == 0 {
        assert(insert_header(hs, name, value) =~= seq![(name, value)]);
        assert(seq![(name, value)].drop_first() =~= Seq::<(Seq<u8>, Seq<u8>)>::empty());
    } else if hs[0].0 == name {
        lemma_strip_values(hs.drop_first(), name);
        assert((seq![(name, value)] + strip_name(hs.drop_first(), name)).drop_first()
            =~= strip_name(hs.drop_first(), name));
    } else {
        lemma_insert_values(hs.drop_first(), name, value);
        assert((seq![hs[0]] + insert_header(hs.drop_first(), name, value)).drop_first()
            =~= insert_header(hs.drop_first(), name, value));
    }
}

/// An insertion leaves the values of every other name alone, in order.
pub proof fn lemma_insert_other_values(
    hs: Seq<(Seq<u8>, Seq<u8>)>,
    name: Seq<u8>,
    value: Seq<u8>,
    other: Seq<u8>,
)
    requires
        other != name,
    ensures
        values_of(insert_header(hs, name, value), other) =~= values_of(hs, other),
    decreases hs.len(),
{
    reveal_with_fuel(values_of, 3);
    reveal_with_fuel(insert_header, 3);
    reveal_with_fuel(strip_name, 3);
    if hs.len() == 0 {
        assert(seq![(name, value)].drop_first() =~= Seq::<(Seq<u8>, Seq<u8>)>::empty());
    } else if hs[0].0 == name {
        lemma_strip_other_values(hs.drop_first(), name, other);
        assert((seq![(name, value)] + strip_name(hs.drop_first(), name)).drop_first()
            =~= strip_name(hs.drop_first(), name));
    } else {
        lemma_insert_other_values(hs.drop_first(), name, value, other);
        assert((seq![hs[0]] + insert_header(hs.drop_first(), name, value)).drop_first()
            =~= insert_header(hs.drop_first(), name, value));
    }
}

/// Stripping a name twice is stripping it once.
pub proof fn lemma_strip_idem(hs: Seq<(Seq<u8>, Seq<u8>)>, name: Seq<u8>)
    ensures
        strip_name(strip_name(hs, name), name) =~= strip_name(hs, name),
    decreases hs.len(),
{
    reveal_with_fuel(strip_name, 3);
    if hs.len() > 0 {
        lemma_strip_idem(hs.drop_first(), name);
        if hs[0].0 != name {
            assert((seq![hs[0]] + strip_name(hs.drop_first(), name)).drop_first() =~= strip_name(
                hs.drop_first(),
                name,
            ));
        }
    }
}

/// A later insertion of the same name wins outright: inserting twice under
/// one name leaves what a single insertion of the second value leaves.
pub proof fn lemma_insert_twice(
    hs: Seq<(Seq<u8>, Seq<u8>)>,
    name: Seq<u8>,
    v1: Seq<u8>,
    v2: Seq<u8>,
)
    ensures
        insert_header(insert_header(hs, name, v1), name, v2) =~= insert_header(hs, name, v2),
    decreases hs.len(),
{
    reveal_with_fuel(insert_header, 3);
    reveal_with_fuel(strip_name, 3);
    if hs.len() == 0 {
        assert((seq![(name, v1)]).drop_first() =~= Seq::<(Seq<u8>, Seq<u8>)>::empty());
        assert((seq![(name, v2)] + strip_name(seq![(name, v1)].drop_first(), name)) =~= seq![
            (name, v2),
        ]);
    } else if hs[0].0 == name {
        lemma_strip_idem(hs.drop_first(), name);
        assert((seq![(name, v1)] + strip_name(hs.drop_first(), name)).drop_first() =~= strip_name(
            hs.drop_first(),
            name,
        ));
    } else {
        lemma_insert_twice(hs.drop_first(), name, v1, v2);
        assert((seq![hs[0]] + insert_header(hs.drop_first(), name, v1)).drop_first()
            =~= insert_header(hs.drop_first(), name, v1));
        assert((seq![hs[0]] + insert_header(hs.drop_first(), name, v2)).drop_first()
            =~= insert_header(hs.drop_first(), name, v2));
    }
}

/// Applying one more header is inserting it after the others.
pub proof fn lemma_apply_push(
    hs: Seq<(Seq<u8>, Seq<u8>)>,
    incoming: Seq<(Seq<u8>, Seq<u8>)>,
    p: (Seq<u8>, Seq<u8>),
)
    ensures
        apply_headers(hs, incoming.push(p)) == insert_header(apply_headers(hs, incoming), p.0, p.1),
    decreases incoming.len(),
{
    reveal_with_fuel(apply_headers, 3);
    if incoming.len() == 0 {
        assert(incoming.push(p)[0] == p);
        assert(incoming.push(p).drop_first() =~= Seq::<(Seq<u8>, Seq<u8>)>::empty());
    } else {
        lemma_apply_push(insert_header(hs, incoming[0].0, incoming[0].1), incoming.drop_first(), p);
        assert(incoming.push(p)[0] == incoming[0]);
        assert(incoming.push(p).drop_first() =~= incoming.drop_first().push(p));
    }
}

/// Inserts a header into a list, replacing any entry of the same name.
pub fn insert_field(hs: &Vec<HeaderField>, name: &Vec<u8>, value: &Vec<u8>) -> (r: Vec<
    HeaderField,
>)
    ensures
        header_views(r@) == insert_header(header_views(hs@), name@, value@),
        headers_wf(hs@) && canonical_name_ok(name@) && header_value_ok(value@) ==> headers_wf(r@),
{
    let ghost full = header_views(hs@);
    proof {
        assert(header_views(hs@).skip(0) =~= header_views(hs@));
        assert(header_views(Seq::<HeaderField>::empty()) =~= Seq::<(Seq<u8>, Seq<u8>)>::empty());
        assert(Seq::<(Seq<u8>, Seq<u8>)>::empty() + header_views(hs@) =~= header_views(hs@));
    }
    let mut out: Vec<HeaderField> = Vec::new();
    let mut placed = false;
    let mut i: usize = 0;
    while i < hs.len()
        invariant
            i <= hs.len(),
            placed ==> insert_header(full, name@, value@) =~= header_views(out@) + strip_name(
                header_views(hs@).skip(i as int),
                name@,
            ),
            !placed ==> insert_header(full, name@, value@) =~= header_views(out@) + insert_header(
                header_views(hs@).skip(i as int),
                name@,
                value@,
            ),
            headers_wf(hs@) && canonical_name_ok(name@) && header_value_ok(value@)
                ==> headers_wf(out@),
        decreases hs.len() - i,
    {
        proof {
            assert(header_views(hs@).skip(i as int).drop_first() =~= header_views(hs@).skip(
                i as int + 1,
            ));
            assert(header_views(hs@).skip(i as int)[0] == hs@[i as int]@);
        }
        let same = bytes_eq(&hs[i].name, name);
        if same {
            if !placed {
                out.push(HeaderField { name: copy_bytes(name), value: copy_bytes(value) });
                placed = true;
            }
        } else {
            out.push(hs[i].duplicate());
        }
        i += 1;
        proof {
            if placed {
                assert(insert_header(full, name@, value@) =~= header_views(out@) + strip_name(
                    header_views(hs@).skip(i as int),
                    name@,
                ));
            } else {
                assert(insert_header(full, name@, value@) =~= header_views(out@) + insert_header(
                    header_views(hs@).skip(i as int),
                    name@,
                    value@,
                ));
            }
        }
    }
    proof {
        assert(header_views(hs@).skip(hs@.len() as int) =~= Seq::<(Seq<u8>, Seq<u8>)>::empty());
    }
    if !placed {
        out.push(HeaderField { name: copy_bytes(name), value: copy_bytes(value) });
    }
    proof {
        assert(header_views(out@) =~= insert_header(full, name@, value@));
    }
    out
}

/// The incoming headers with their names put in canonical form.
pub open spec fn canon_views(hs: Seq<HeaderField>) -> Seq<(Seq<u8>, Seq<u8>)> {
    hs.map_values(|f: HeaderField| (lower_bytes(f.name@), f.value@))
}

/// Lower-casing a legal header name yields a canonical one.
pub proof fn lemma_lower_name_ok(s: Seq<u8>)
    requires
        header_name_ok(s),
    ensures
        canonical_name_ok(lower_bytes(s)),
{
    assert forall|i: int| 0 <= i < lower_bytes(s).len() implies is_name_byte(
        #[trigger] lower_bytes(s)[i],
    ) && !is_upper_byte(lower_bytes(s)[i]) by {
        assert(lower_bytes(s)[i] == crate::text::lower_byte(s[i]));
    }
}

/// Merges incoming headers into a list: every incoming header is inserted
/// in turn, under its canonical name, replacing what stood under that name.
/// Nothing is merged unless every incoming header is legal.
pub fn apply_fields(hs: &Vec<HeaderField>, incoming: &Vec<HeaderField>) -> (r: Result<
    Vec<HeaderField>,
    AdapterError,
>)
    ensures
        (r is Ok) <==> (forall|i: int|
            0 <= i < incoming@.len() ==> header_name_ok((#[trigger] incoming@[i])@.0)
                && header_value_ok(incoming@[i]@.1)),
        r matches Ok(out) ==> header_views(out@) == apply_headers(
            header_views(hs@),
            canon_views(incoming@),
        ),
        r matches Ok(out) ==> (headers_wf(hs@) ==> headers_wf(out@)),
        r matches Err(e) ==> (e == AdapterError::InvalidHeaderName || e
            == AdapterError::InvalidHeaderValue),
{
    let mut i: usize = 0;
    while i < incoming.len()
        invariant
            i <= incoming.len(),
            forall|j: int|
                0 <= j < i ==> header_name_ok((#[trigger] incoming@[j])@.0) && header_value_ok(
                    incoming@[j]@.1,
                ),
        decreases incoming.len() - i,
    {
        if !check_header_name(&incoming[i].name) {
            proof {
                assert(!header_name_ok(incoming@[i as int]@.0));
            }
            return Err(AdapterError::InvalidHeaderName);
        }
        if !check_header_value(&incoming[i].value) {
            proof {
                assert(!header_value_ok(incoming@[i as int]@.1));
            }
            return Err(AdapterError::InvalidHeaderValue);
        }
        proof {
            assert(header_name_ok(incoming@[i as int]@.0) && header_value_ok(
                incoming@[i as int]@.1,
            ));
        }
        i += 1;
    }
    let mut cur = copy_headers(hs);
    proof {
        assert(canon_views(incoming@.take(0)) =~= Seq::<(Seq<u8>, Seq<u8>)>::empty());
        reveal_with_fuel(apply_headers, 2);
    }
    let mut k: usize = 0;
    while k < incoming.len()
        invariant
            k <= incoming.len(),
            forall|j: int|
                0 <= j < incoming@.len() ==> header_name_ok((#[trigger] incoming@[j])@.0)
                    && header_value_ok(incoming@[j]@.1),
            header_views(cur@) == apply_headers(
                header_views(hs@),
                canon_views(incoming@.take(k as int)),
            ),
            headers_wf(hs@) ==> headers_wf(cur@),
        decreases incoming.len() - k,
    {
        let lower = to_lower_bytes(&incoming[k].name);
        proof {
            lemma_lower_name_ok(incoming@[k as int]@.0);
        }
        let next = insert_field(&cur, &lower, &incoming[k].value);
        proof {
            lemma_apply_push(
                header_views(hs@),
                canon_views(incoming@.take(k as int)),
                (lower_bytes(incoming@[k as int]@.0), incoming@[k as int]@.1),
            );
            assert(canon_views(incoming@.take(k as int + 1)) =~= canon_views(
                incoming@.take(k as int),
            ).push((lower_bytes(incoming@[k as int]@.0), incoming@[k as int]@.1)));
        }
        cur = next;
        k += 1;
    }
    proof {
        assert(incoming@.take(incoming@.len() as int) =~= incoming@);
    }
    Ok(cur)
}

} // verus!
