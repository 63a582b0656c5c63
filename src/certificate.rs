use vstd::prelude::*;

verus! {

/// The error of the `pem` crate's parsers, carried through unread.
#[verifier::external_type_specification]
#[verifier::external_body]
pub struct ExPemError(pem::PemError);

/// The contents that `pem::parse` decodes from `input`, when it accepts it.
pub uninterp spec fn pem_contents(input: Seq<u8>) -> Option<Seq<u8>>;

/// The contents of each section that `pem::parse_many` decodes from `input`,
/// when it accepts it.
pub uninterp spec fn pem_sections(input: Seq<u8>) -> Option<Seq<Seq<u8>>>;

/// The view of each byte string of a list.
pub open spec fn byte_strings_view(v: Seq<Vec<u8>>) -> Seq<Seq<u8>> {
    Seq::new(v.len(), |i: int| v[i]@)
}

/// Relies on `pem::parse`: decodes the first PEM section of `input` into its
/// binary contents; the result depends on the input bytes alone.
#[verifier::external_body]
fn parse_pem(input: &Vec<u8>) -> (r: Result<Vec<u8>, pem::PemError>)
    ensures
        match r {
            Ok(contents) => pem_contents(input@) == Some(contents@),
            Err(_) => pem_contents(input@) is None,
        },
{
    pem::parse(input).map(|section| section.contents)
}

/// Relies on `pem::parse_many`: decodes every PEM section of `input` into its
/// binary contents, in order; the result depends on the input bytes alone.
#[verifier::external_body]
fn parse_pem_sections(input: &Vec<u8>) -> (r: Result<Vec<Vec<u8>>, pem::PemError>)
    ensures
        match r {
            Ok(sections) => pem_sections(input@) == Some(byte_strings_view(sections@)),
            Err(_) => pem_sections(input@) is None,
        },
{
    pem::parse_many(input).map(|sections| sections.into_iter().map(|section| section.contents).collect())
}

/// Why certificate material could not be read.
#[derive(Clone, Copy, Debug, PartialEq, Eq, Structural)]
pub enum CertificateError {
    /// The private key is not valid PEM.
    InvalidPrivateKey,
    /// The certificate chain is not valid PEM.
    InvalidCertificateChain,
}

/// A private key and the certificate chain that goes with it, each in DER.
#[derive(Clone, Debug)]
pub struct CertificateMaterial {
    pub private_key: Vec<u8>,
    pub certificate_chain: Vec<Vec<u8>>,
}

/// The DER private key and certificate chain that an `Install` command
/// installs, from the PEM text of its two files: the first section of the key
/// file, and every section of the chain file in order.
pub fn parse_certificate_material(private_key_pem: &Vec<u8>, certificate_chain_pem: &Vec<u8>) -> (r: Result<CertificateMaterial, CertificateError>)
    ensures
        match r {
            Ok(material) => {
                &&& pem_contents(private_key_pem@) == Some(material.private_key@)
                &&& pem_sections(certificate_chain_pem@) == Some(byte_strings_view(material.certificate_chain@))
            },
            Err(CertificateError::InvalidPrivateKey) => pem_contents(private_key_pem@) is None,
            Err(CertificateError::InvalidCertificateChain) => {
                &&& pem_contents(private_key_pem@) is Some
                &&& pem_sections(certificate_chain_pem@) is None
            },
        },
{
    let private_key = match parse_pem(private_key_pem) {
        Ok(contents) => contents,
        Err(_) => {
            return Err(CertificateError::InvalidPrivateKey);
        },
    };
    let certificate_chain = match parse_pem_sections(certificate_chain_pem) {
        Ok(sections) => sections,
        Err(_) => {
            return Err(CertificateError::InvalidCertificateChain);
        },
    };
    Ok(CertificateMaterial { private_key, certificate_chain })
}

} // verus!
