//! The certificates and the key that the relay shows to hosts.

use rustls_pki_types::pem::{PemObject, ReadIter};
use rustls_pki_types::{CertificateDer, PrivateKeyDer};
use vstd::prelude::*;

verus! {

/// A private key, by its encoding.
#[derive(Debug)]
pub enum PrivateKey {
    Pkcs1(Vec<u8>),
    Sec1(Vec<u8>),
    Pkcs8(Vec<u8>),
}

/// A `PrivateKey` with its bytes as a sequence.
pub enum PrivateKeyView {
    Pkcs1(Seq<u8>),
    Sec1(Seq<u8>),
    Pkcs8(Seq<u8>),
}

impl View for PrivateKey {
    type V = PrivateKeyView;

    open spec fn view(&self) -> PrivateKeyView {
        match *self {
            PrivateKey::Pkcs1(der) => PrivateKeyView::Pkcs1(der@),
            PrivateKey::Sec1(der) => PrivateKeyView::Sec1(der@),
            PrivateKey::Pkcs8(der) => PrivateKeyView::Pkcs8(der@),
        }
    }
}

/// What `rustls_pki_types::pem::ReadIter` yields for the certificates in `pem`, in order: the
/// encoded certificate, or `None` where it yields an error.
pub uninterp spec fn pem_certificates(pem: Seq<u8>) -> Seq<Option<Seq<u8>>>;

/// What `PrivateKeyDer::from_pem_reader` makes of `pem`: the key, or the text of its error.
pub uninterp spec fn pem_private_key(pem: Seq<u8>) -> Result<PrivateKeyView, Seq<char>>;

/// Runs `rustls_pki_types::pem::ReadIter` over `pem` to its end. It yields the certificates there
/// in order, passes over sections of other kinds, and yields an error for a section that is broken.
/// What it yields depends on the bytes alone, since reading from memory does not fail.
#[verifier::external_body]
fn read_certificates(pem: &[u8]) -> (certificates: Vec<Option<Vec<u8>>>)
    ensures
        certificates.deep_view() == pem_certificates(pem@),
{
    ReadIter::<&[u8], CertificateDer<'static>>::new(pem)
        .map(|certificate| certificate.ok().map(|certificate| certificate.to_vec()))
        .collect()
}

/// Calls `PrivateKeyDer::from_pem_reader` on `pem`, which gives the first private key there or
/// the error that comes before it, and depends on the bytes alone. The key is taken apart by its
/// variant; besides the three that there are, the outside enum leaves room for more.
#[verifier::external_body]
fn read_private_key(pem: &[u8]) -> (key: Result<PrivateKey, String>)
    ensures
        match key {
            Ok(key) => pem_private_key(pem@) == Ok::<PrivateKeyView, Seq<char>>(key@),
            Err(error) => pem_private_key(pem@) == Err::<PrivateKeyView, Seq<char>>(error@),
        },
{
    match PrivateKeyDer::from_pem_reader(pem) {
        Ok(PrivateKeyDer::Pkcs1(key)) => Ok(PrivateKey::Pkcs1(key.secret_pkcs1_der().to_vec())),
        Ok(PrivateKeyDer::Sec1(key)) => Ok(PrivateKey::Sec1(key.secret_sec1_der().to_vec())),
        Ok(PrivateKeyDer::Pkcs8(key)) => Ok(PrivateKey::Pkcs8(key.secret_pkcs8_der().to_vec())),
        Ok(_) => Err(String::new()),
        Err(error) => Err(error.to_string()),
    }
}

/// The certificates among what was read, in order, without what could not be read.
pub open spec fn readable<T>(certificates: Seq<Option<T>>) -> Seq<T>
    decreases certificates.len(),
{
    if certificates.len() == 0 {
        Seq::empty()
    } else {
        match certificates.last() {
            Some(certificate) => readable(certificates.drop_last()).push(certificate),
            None => readable(certificates.drop_last()),
        }
    }
}

/// Keeps what could be read.
pub fn keep_readable(certificates: Vec<Option<Vec<u8>>>) -> (chain: Vec<Vec<u8>>)
    ensures
        chain.deep_view() == readable(certificates.deep_view()),
{
    let mut chain: Vec<Vec<u8>> = Vec::new();
    let mut at: usize = 0;
    while at < certificates.len()
        invariant
            at <= certificates.len(),
            chain.deep_view() == readable(certificates.deep_view().take(at as int)),
        decreases certificates.len() - at,
    {
        let ghost before = chain.deep_view();
        proof {
            let seen = certificates.deep_view().take(at + 1);
            assert(seen.drop_last() =~= certificates.deep_view().take(at as int));
        }
        match &certificates[at] {
            Some(certificate) => {
                let kept: Vec<u8> = certificate.clone();
                chain.push(kept);
                assert(kept@ =~= certificate@);
                assert(kept.deep_view() =~= certificate.deep_view());
                assert(chain.deep_view() =~= before.push(kept.deep_view()));
            },
            None => {},
        }
        at = at + 1;
    }
    assert(certificates.deep_view().take(at as int) =~= certificates.deep_view());
    chain
}

/// The certificate chain in `cert_pem` and the private key in `key_pem`. Certificates that cannot
/// be read are left out; without a key there is only the text of the error.
pub fn get_certs(cert_pem: &[u8], key_pem: &[u8]) -> (certs: Result<
    (Vec<Vec<u8>>, PrivateKey),
    String,
>)
    ensures
        match certs {
            Ok((chain, key)) => {
                &&& chain.deep_view() == readable(pem_certificates(cert_pem@))
                &&& pem_private_key(key_pem@) == Ok::<PrivateKeyView, Seq<char>>(key@)
            },
            Err(error) => pem_private_key(key_pem@) == Err::<PrivateKeyView, Seq<char>>(error@),
        },
{
    let chain: Vec<Vec<u8>> = keep_readable(read_certificates(cert_pem));
    match read_private_key(key_pem) {
        Ok(key) => Ok((chain, key)),
        Err(error) => Err(error),
    }
}

/// What can be read of two files, one behind the other, is what can be read of each.
proof fn lemma_readable_of_both<T>(first: Seq<Option<T>>, second: Seq<Option<T>>)
    ensures
        readable(first + second) == readable(first) + readable(second),
    decreases second.len(),
{
    let both = first + second;
    if second.len() == 0 {
        assert(both =~= first);
    } else {
        assert(both.drop_last() =~= first + second.drop_last());
        assert(both.last() == second.last());
        lemma_readable_of_both(first, second.drop_last());
    }
    assert(readable(both) =~= readable(first) + readable(second));
}

/// A certificate that cannot be read costs the chain nothing else, and one that can be read keeps
/// its place between those before and those after it.
pub proof fn law_certificates_keep_their_order<T>(
    before: Seq<Option<T>>,
    certificate: Option<T>,
    after: Seq<Option<T>>,
)
    ensures
        readable(before + seq![certificate] + after) == (match certificate {
            Some(certificate) => readable(before) + seq![certificate] + readable(after),
            None => readable(before) + readable(after),
        }),
{
    lemma_readable_of_both(before, seq![certificate]);
    lemma_readable_of_both(before + seq![certificate], after);
    reveal_with_fuel(readable, 2);
    assert(seq![certificate].drop_last() =~= Seq::empty());
    match certificate {
        Some(inner) => assert(readable(seq![certificate]) =~= seq![inner]),
        None => assert(readable(seq![certificate]) =~= Seq::empty()),
    }
    assert(readable(before + seq![certificate] + after) =~= (match certificate {
        Some(certificate) => readable(before) + seq![certificate] + readable(after),
        None => readable(before) + readable(after),
    }));
}

/// Where nothing was read there is no chain, and a chain has no more certificates than were read.
pub proof fn law_chain_is_no_longer_than_the_file<T>(certificates: Seq<Option<T>>)
    ensures
        readable(Seq::<Option<T>>::empty()) == Seq::<T>::empty(),
        readable(certificates).len() <= certificates.len(),
    decreases certificates.len(),
{
    if certificates.len() > 0 {
        law_chain_is_no_longer_than_the_file(certificates.drop_last());
    }
}

/// Where everything could be read, the chain is all of it.
pub proof fn law_readable_files_are_kept_whole<T>(certificates: Seq<Option<T>>)
    requires
        forall|i: int| 0 <= i < certificates.len() ==> certificates[i] is Some,
    ensures
        readable(certificates).len() == certificates.len(),
        forall|i: int|
            0 <= i < certificates.len() ==> Some(#[trigger] readable(certificates)[i])
                == certificates[i],
    decreases certificates.len(),
{
    if certificates.len() > 0 {
        law_readable_files_are_kept_whole(certificates.drop_last());
    }
}

/// The view of a key tells its encoding, and all its bytes.
pub proof fn law_key_views_keep_everything(key: PrivateKey)
    ensures
        match key {
            PrivateKey::Pkcs1(der) => key@ == PrivateKeyView::Pkcs1(der@),
            PrivateKey::Sec1(der) => key@ == PrivateKeyView::Sec1(der@),
            PrivateKey::Pkcs8(der) => key@ == PrivateKeyView::Pkcs8(der@),
        },
{
}

} // verus!
