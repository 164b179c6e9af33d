//! Certificates and private keys in PEM files.

use vstd::prelude::*;

use rustls_pemfile::Item;

use crate::sequence::{copy_bytes, same_bytes, views, Valued};

verus! {

/// What one section of a PEM file holds.
#[derive(Clone, Copy, Debug, PartialEq, Eq, Structural)]
pub enum PemItemKind {
    Certificate,
    Pkcs1Key,
    Pkcs8Key,
    Sec1Key,
    PublicKey,
    RevocationList,
    SigningRequest,
    Other,
}

/// One section of a PEM file.
pub struct PemItem {
    pub kind: PemItemKind,
    pub bytes: Vec<u8>,
}

/// What one [`PemItem`] holds.
pub struct PemItemView {
    pub kind: PemItemKind,
    pub bytes: Seq<u8>,
}

impl View for PemItem {
    type V = PemItemView;

    open spec fn view(&self) -> PemItemView {
        PemItemView { kind: self.kind, bytes: self.bytes@ }
    }
}

impl Valued for PemItem {
    fn copy(&self) -> (copy: Self) {
        PemItem { kind: self.kind, bytes: copy_bytes(&self.bytes) }
    }

    fn same(&self, other: &Self) -> (same: bool) {
        self.kind == other.kind && same_bytes(&self.bytes, &other.bytes)
    }
}

/// The sections by view, if every one could be read.
pub open spec fn item_views(items: Option<Vec<PemItem>>) -> Option<Seq<PemItemView>> {
    match items {
        Some(items) => Some(views(items@)),
        None => None,
    }
}

/// What `rustls_pemfile::read_all` yields of a PEM file in order: the known sections, and nothing in
/// the place of each malformed one.
pub uninterp spec fn pem_items(file: Seq<u8>) -> Seq<Option<PemItemView>>;

/// The sections in the places that hold one.
pub open spec fn contents(items: Seq<Option<PemItemView>>) -> Seq<PemItemView> {
    Seq::new(items.len(), |i: int| items[i]->Some_0)
}

/// Every section of a PEM file, if none is malformed.
pub open spec fn all_items(items: Seq<Option<PemItemView>>) -> Option<Seq<PemItemView>> {
    if forall|i: int| 0 <= i < items.len() ==> #[trigger] items[i] is Some {
        Some(contents(items))
    } else {
        None
    }
}

/// The sections of a PEM file before the first malformed one.
pub open spec fn leading_items(items: Seq<Option<PemItemView>>) -> Seq<PemItemView>
    decreases items.len(),
{
    if items.len() == 0 {
        Seq::empty()
    } else {
        match items[0] {
            Some(item) => seq![item] + leading_items(items.skip(1)),
            None => Seq::empty(),
        }
    }
}

/// What one file yields as pairs of a kind and DER bytes.
pub open spec fn pair_views(items: Seq<Option<(PemItemKind, Vec<u8>)>>) -> Seq<
    Option<PemItemView>,
> {
    Seq::new(
        items.len(),
        |i: int|
            match items[i] {
                Some(pair) => Some(PemItemView { kind: pair.0, bytes: pair.1@ }),
                None => None,
            },
    )
}

/// The certificates among some sections, in order.
pub open spec fn certificates_of(items: Option<Seq<PemItemView>>) -> Option<Seq<PemItemView>> {
    match items {
        Some(items) => Some(
            items.filter(|item: PemItemView| item.kind == PemItemKind::Certificate),
        ),
        None => None,
    }
}

/// Calls `rustls_pemfile::read_all` on the bytes in memory and collects everything that it yields:
/// the result is a function of the bytes alone, which [`pem_items`] names. Every item keeps its kind
/// and its DER bytes, and every error becomes nothing in its place. `rustls_pemfile::Item` may gain
/// kinds; one that is not known here becomes [`PemItemKind::Other`].
#[verifier::external_body]
fn read_pem_pairs(file: &[u8]) -> (items: Vec<Option<(PemItemKind, Vec<u8>)>>)
    ensures
        pair_views(items@) == pem_items(file@),
{
    rustls_pemfile::read_all(&mut &*file).map(|item| Some(match item.ok()? {
        Item::X509Certificate(der) => (PemItemKind::Certificate, der.to_vec()),
        Item::SubjectPublicKeyInfo(der) => (PemItemKind::PublicKey, der.to_vec()),
        Item::Pkcs1Key(der) => (PemItemKind::Pkcs1Key, der.secret_pkcs1_der().to_vec()),
        Item::Pkcs8Key(der) => (PemItemKind::Pkcs8Key, der.secret_pkcs8_der().to_vec()),
        Item::Sec1Key(der) => (PemItemKind::Sec1Key, der.secret_sec1_der().to_vec()),
        Item::Crl(der) => (PemItemKind::RevocationList, der.to_vec()),
        Item::Csr(der) => (PemItemKind::SigningRequest, der.to_vec()),
        _ => (PemItemKind::Other, Vec::new()),
    })).collect()
}

/// Calls `rustls_pemfile::certs` on the bytes in memory and collects what it yields, stopping at
/// the first error. `certs` reads the same sections as `read_all`, passes every error on and keeps
/// the certificates alone, so the result is the certificates among [`pem_items`], and nothing if
/// some section is malformed.
#[verifier::external_body]
pub(crate) fn read_pem_certificates(file: &[u8]) -> (certificates: Option<Vec<PemItem>>)
    ensures
        item_views(certificates) == certificates_of(all_items(pem_items(file@))),
{
    rustls_pemfile::certs(&mut &*file).map(
        |der| Some(PemItem { kind: PemItemKind::Certificate, bytes: der.ok()?.to_vec() }),
    ).collect()
}

/// Reads the sections of a PEM file before the first malformed one, and whether they are all.
#[verifier::loop_isolation(false)]
fn read_leading(file: &[u8]) -> (read: (Vec<PemItem>, bool))
    ensures
        views(read.0@) == leading_items(pem_items(file@)),
        all_items(pem_items(file@)) == (if read.1 {
            Some(views(read.0@))
        } else {
            None
        }),
{
    let pairs = read_pem_pairs(file);
    let ghost all = pem_items(file@);
    let count: usize = pairs.len();
    let mut items: Vec<PemItem> = Vec::new();
    let mut i: usize = 0;
    assert(views(items@) =~= contents(all.take(0)));
    while i < count
        invariant
            i <= count == pairs@.len(),
            all.len() == count,
            forall|j: int| 0 <= j < i ==> #[trigger] all[j] is Some,
            views(items@) == contents(all.take(i as int)),
        decreases count - i,
    {
        let ghost earlier = views(items@);
        assert(all[i as int] == pair_views(pairs@)[i as int]);
        match &pairs[i] {
            Some((kind, bytes)) => {
                items.push(PemItem { kind: *kind, bytes: copy_bytes(bytes) });
                assert(views(items@) =~= earlier.push(all[i as int]->Some_0));
                assert(views(items@) =~= contents(all.take(i + 1)));
            },
            None => {
                proof {
                    lemma_leading_items(all, i as nat);
                }
                return (items, false);
            },
        }
        i += 1;
    }
    proof {
        lemma_leading_items(all, count as nat);
        assert(all.take(count as int) =~= all);
    }
    (items, true)
}

proof fn lemma_leading_items(items: Seq<Option<PemItemView>>, count: nat)
    requires
        count <= items.len(),
        forall|i: int| 0 <= i < count ==> #[trigger] items[i] is Some,
        count < items.len() ==> items[count as int] is None,
    ensures
        leading_items(items) == contents(items.take(count as int)),
    decreases count,
{
    if count == 0 {
        assert(leading_items(items) =~= contents(items.take(0)));
    } else {
        let rest = items.skip(1);
        assert forall|i: int| 0 <= i < count - 1 implies #[trigger] rest[i] is Some by {
            assert(rest[i] == items[i + 1]);
        }
        assert(items[0] is Some);
        lemma_leading_items(rest, (count - 1) as nat);
        assert(leading_items(items) =~= contents(items.take(count as int)));
    }
}

/// Reads the sections of a PEM file before the first malformed one.
pub(crate) fn read_leading_items(file: &[u8]) -> (items: Vec<PemItem>)
    ensures
        views(items@) == leading_items(pem_items(file@)),
{
    read_leading(file).0
}

/// Reads the known sections of a PEM file in order, or nothing if some section is malformed.
pub(crate) fn read_pem_items(file: &[u8]) -> (items: Option<Vec<PemItem>>)
    ensures
        item_views(items) == all_items(pem_items(file@)),
{
    let (items, all) = read_leading(file);
    if all {
        Some(items)
    } else {
        None
    }
}

/// Every section of a chain is a certificate.
pub open spec fn all_certificates(items: Seq<PemItemView>) -> bool {
    forall|i: int| 0 <= i < items.len() ==> (#[trigger] items[i]).kind == PemItemKind::Certificate
}

/// Returns whether every section is a certificate.
#[verifier::loop_isolation(false)]
pub fn only_certificates(items: &Vec<PemItem>) -> (only: bool)
    ensures
        only == all_certificates(views(items@)),
{
    let count: usize = items.len();
    let mut i: usize = 0;
    while i < count
        invariant
            i <= count == items@.len(),
            forall|j: int|
                0 <= j < i ==> (#[trigger] views(items@)[j]).kind == PemItemKind::Certificate,
        decreases count - i,
    {
        assert(views(items@)[i as int] == items@[i as int]@);
        if items[i].kind != PemItemKind::Certificate {
            return false;
        }
        i += 1;
    }
    true
}

/// One of the three private key encodings.
pub open spec fn key_kind(kind: PemItemKind) -> bool {
    kind == PemItemKind::Pkcs1Key || kind == PemItemKind::Pkcs8Key || kind == PemItemKind::Sec1Key
}

/// Returns whether the section holds a private key.
pub fn is_key(kind: PemItemKind) -> (is: bool)
    ensures
        is == key_kind(kind),
{
    matches!(kind, PemItemKind::Pkcs1Key | PemItemKind::Pkcs8Key | PemItemKind::Sec1Key)
}

} // verus!
