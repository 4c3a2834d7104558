use vstd::prelude::*;
use vstd::utf8::{decode_utf8, valid_utf8};

verus! {

/// The protocols a client offers, as byte strings.
pub open spec fn protocols_view(p: Seq<Vec<u8>>) -> Seq<Seq<u8>> {
    p.map_values(|v: Vec<u8>| v@)
}

/// The ALPN wire form: each protocol name preceded by its one-byte length.
pub open spec fn wire_of(p: Seq<Seq<u8>>) -> Seq<u8>
    decreases p.len(),
{
    if p.len() == 0 {
        Seq::empty()
    } else {
        wire_of(p.drop_last()) + seq![p.last().len() as u8] + p.last()
    }
}

pub open spec fn all_encodable(p: Seq<Seq<u8>>) -> bool {
    forall|i: int| 0 <= i < p.len() ==> (#[trigger] p[i]).len() <= 255
}

pub open spec fn h2() -> Seq<u8> {
    seq![104u8, 50u8]
}

pub open spec fn http11() -> Seq<u8> {
    seq![104u8, 116u8, 116u8, 112u8, 47u8, 49u8, 46u8, 49u8]
}

/// The text of a byte string read as UTF-8, with each invalid sequence replaced.
pub uninterp spec fn lossy_utf8(b: Seq<u8>) -> Seq<char>;

/// Relies on `String::from_utf8_lossy`: valid UTF-8 is decoded as it stands.
#[verifier::external_body]
pub(crate) fn utf8_lossy(b: &[u8]) -> (r: String)
    ensures
        r@ == lossy_utf8(b@),
        valid_utf8(b@) ==> r@ == decode_utf8(b@),
{
    String::from_utf8_lossy(b).to_string()
}

/// The protocols offered by default, in order of preference: `h2`, then `http/1.1`.
pub fn default_protocols() -> (r: Vec<Vec<u8>>)
    ensures
        protocols_view(r@) == seq![h2(), http11()],
{
    let a: Vec<u8> = vec![104u8, 50u8];
    let b: Vec<u8> = vec![104u8, 116u8, 116u8, 112u8, 47u8, 49u8, 46u8, 49u8];
    assert(a@ =~= h2());
    assert(b@ =~= http11());
    let r = vec![a, b];
    assert(protocols_view(r@) =~= seq![h2(), http11()]);
    r
}

/// The ALPN wire form of `protocols`; `None` when a name is longer than 255 bytes.
pub fn encode_alpn(protocols: &Vec<Vec<u8>>) -> (r: Option<Vec<u8>>)
    ensures
        r is Some <==> all_encodable(protocols_view(protocols@)),
        r matches Some(w) ==> w@ == wire_of(protocols_view(protocols@)),
{
    let ghost p = protocols_view(protocols@);
    let mut out: Vec<u8> = Vec::new();
    let mut i: usize = 0;
    while i < protocols.len()
        invariant
            i <= protocols@.len(),
            p == protocols_view(protocols@),
            all_encodable(p.subrange(0, i as int)),
            out@ == wire_of(p.subrange(0, i as int)),
        decreases protocols@.len() - i,
    {
        let name = &protocols[i];
        if name.len() > 255 {
            assert(p[i as int].len() > 255);
            return None;
        }
        let ghost pre = p.subrange(0, i as int + 1);
        assert(pre.drop_last() =~= p.subrange(0, i as int));
        out.push(name.len() as u8);
        let mut k: usize = 0;
        let ghost base = out@;
        while k < name.len()
            invariant
                k <= name@.len(),
                out@ == base + name@.subrange(0, k as int),
            decreases name@.len() - k,
        {
            out.push(name[k]);
            k = k + 1;
            assert(out@ =~= base + name@.subrange(0, k as int));
        }
        assert(name@.subrange(0, k as int) =~= name@);
        assert(out@ =~= wire_of(pre));
        i = i + 1;
        assert(all_encodable(p.subrange(0, i as int))) by {
            assert(forall|j: int| 0 <= j < i ==> p.subrange(0, i as int)[j] == p[j]);
        }
    }
    assert(p.subrange(0, i as int) =~= p);
    Some(out)
}

/// The protocol the server selected, as text; empty when it selected none.
pub fn negotiated_protocol(selected: Option<&[u8]>) -> (r: String)
    ensures
        selected is None ==> r@ == Seq::<char>::empty(),
        selected matches Some(b) ==> r@ == lossy_utf8(b@),
{
    match selected {
        Some(b) => utf8_lossy(b),
        None => String::new(),
    }
}

} // verus!
