//! What a server is told on its command line, and how what it reads at its start is taken.
use vstd::prelude::*;

use crate::cli;
use crate::cli::{flag, flags, spend_flags};
use crate::cost::{CostError, PriceList, SpendReport};
use crate::digest;
use crate::digest::decode_key32;
use crate::model;
use crate::text;
use crate::text::owned;
use crate::trust::{Keyring, TrustError};

verus! {

/// Everything that a server needs and that is not in the cluster. Paths are as they were given.
#[derive(Debug, Clone, PartialEq, Eq)]
pub struct Options {
    pub addr: Option<String>,
    pub cert: String,
    pub key: String,
    pub trusted_keys: Option<String>,
    pub prices: Option<String>,
    pub spend: Option<String>,
    pub audit_dir: Option<String>,
    /// Seals every decision's record. A path and no key: a secret on the command line of a
    /// long-running process is a secret in its process list.
    pub audit_key_file: Option<String>,
    pub trusted_image_prefixes: Vec<String>,
    /// Where a parent `cluster/<name>` is looked for.
    pub root_namespace: Option<String>,
}

/// What an [`Options`] says.
#[verifier::ext_equal]
pub struct OptionsModel {
    pub addr: Option<Seq<char>>,
    pub cert: Seq<char>,
    pub key: Seq<char>,
    pub trusted_keys: Option<Seq<char>>,
    pub prices: Option<Seq<char>>,
    pub spend: Option<Seq<char>>,
    pub audit_dir: Option<Seq<char>>,
    pub audit_key_file: Option<Seq<char>>,
    pub trusted_image_prefixes: Seq<Seq<char>>,
    pub root_namespace: Option<Seq<char>>,
}

impl DeepView for Options {
    type V = OptionsModel;

    open spec fn deep_view(&self) -> OptionsModel {
        OptionsModel {
            addr: self.addr.deep_view(),
            cert: self.cert.deep_view(),
            key: self.key.deep_view(),
            trusted_keys: self.trusted_keys.deep_view(),
            prices: self.prices.deep_view(),
            spend: self.spend.deep_view(),
            audit_dir: self.audit_dir.deep_view(),
            audit_key_file: self.audit_key_file.deep_view(),
            trusted_image_prefixes: self.trusted_image_prefixes.deep_view(),
            root_namespace: self.root_namespace.deep_view(),
        }
    }
}

/// Why a server did not start, or stopped.
#[derive(Debug, Clone, PartialEq, Eq)]
pub enum ServeError {
    Read(String, String),
    Input(String),
    Kube(String),
    Io(String),
}

/// What a [`ServeError`] says.
#[verifier::ext_equal]
pub enum ServeErrorModel {
    Read(Seq<char>, Seq<char>),
    Input(Seq<char>),
    Kube(Seq<char>),
    Io(Seq<char>),
}

impl DeepView for ServeError {
    type V = ServeErrorModel;

    open spec fn deep_view(&self) -> ServeErrorModel {
        match self {
            ServeError::Read(path, e) => ServeErrorModel::Read(path.deep_view(), e.deep_view()),
            ServeError::Input(e) => ServeErrorModel::Input(e.deep_view()),
            ServeError::Kube(e) => ServeErrorModel::Kube(e.deep_view()),
            ServeError::Io(e) => ServeErrorModel::Io(e.deep_view()),
        }
    }
}

impl ServeErrorModel {
    /// The complaint in words.
    pub open spec fn message(self) -> Seq<char> {
        match self {
            ServeErrorModel::Read(path, e) => "could not read "@ + path + ": "@ + e,
            ServeErrorModel::Input(e) => e,
            ServeErrorModel::Kube(e) => "could not reach the API server: "@ + e,
            ServeErrorModel::Io(e) => "could not serve: "@ + e,
        }
    }
}

impl ServeError {
    pub fn to_text(&self) -> (r: String)
        ensures
            r@ == self.deep_view().message(),
    {
        match self {
            ServeError::Read(path, e) => owned("could not read ").concat(path.as_str()).concat(
                ": ",
            ).concat(e.as_str()),
            ServeError::Input(e) => e.clone(),
            ServeError::Kube(e) => owned("could not reach the API server: ").concat(e.as_str()),
            ServeError::Io(e) => owned("could not serve: ").concat(e.as_str()),
        }
    }
}

// ---------------------------------------------------------------------------------------------
// The command line
// ---------------------------------------------------------------------------------------------
/// The options that the words say. A certificate and its key are required.
pub open spec fn options_of(args: Seq<Seq<char>>) -> Result<OptionsModel, Seq<char>> {
    match (cli::flag_value(args, "--cert"@), cli::flag_value(args, "--key"@)) {
        (Some(cert), Some(key)) => Ok(
            OptionsModel {
                addr: cli::flag_value(args, "--addr"@),
                cert,
                key,
                trusted_keys: cli::flag_value(args, "--trusted-keys"@),
                prices: cli::flag_value(args, "--prices"@),
                spend: cli::flag_value(args, "--spend"@),
                audit_dir: cli::flag_value(args, "--audit-dir"@),
                audit_key_file: cli::flag_value(args, "--audit-key-file"@),
                trusted_image_prefixes: cli::flag_values(args, "--trusted-image-prefix"@),
                root_namespace: cli::flag_value(args, "--root-namespace"@),
            },
        ),
        _ => Err("serve needs --cert and --key"@),
    }
}

fn given(args: &[&str], name: &str) -> (r: Option<String>)
    ensures
        r.deep_view() == cli::flag_value(args.deep_view(), name@),
{
    match flag(args, name) {
        Some(v) => Some(owned(v)),
        None => None,
    }
}

fn all_given(args: &[&str], name: &str) -> (r: Vec<String>)
    ensures
        r.deep_view() == cli::flag_values(args.deep_view(), name@),
{
    let values = flags(args, name);
    let ghost all = values.deep_view();
    let mut out: Vec<String> = Vec::new();
    let mut i: usize = 0;
    assert(out.deep_view() =~= all.subrange(0, 0));
    while i < values.len()
        invariant
            i <= values.len(),
            all == values.deep_view(),
            out.deep_view() == all.subrange(0, i as int),
        decreases values.len() - i,
    {
        assert(all[i as int] == values@[i as int]@);
        let ghost before = out.deep_view();
        let v = owned(values[i]);
        out.push(v);
        assert(out.deep_view() =~= before.push(v@));
        assert(out.deep_view() =~= all.subrange(0, i + 1));
        i += 1;
    }
    assert(all.subrange(0, i as int) =~= all);
    out
}

impl OptionsModel {
    /// The address that is served.
    pub open spec fn address(self) -> Seq<char> {
        match self.addr {
            Some(a) => a,
            None => "0.0.0.0:8443"@,
        }
    }

    /// The namespace of the cluster's own manifests.
    pub open spec fn root(self) -> Seq<char> {
        match self.root_namespace {
            Some(n) => n,
            None => "lex-system"@,
        }
    }
}

impl Options {
    /// The options that the words say.
    pub fn from_args(args: &[&str]) -> (r: Result<Options, String>)
        ensures
            model::outcome(r) == options_of(args.deep_view()),
    {
        let cert: String = match given(args, "--cert") {
            Some(c) => c,
            None => return Err(owned("serve needs --cert and --key")),
        };
        let key: String = match given(args, "--key") {
            Some(k) => k,
            None => return Err(owned("serve needs --cert and --key")),
        };
        Ok(
            Options {
                addr: given(args, "--addr"),
                cert,
                key,
                trusted_keys: given(args, "--trusted-keys"),
                prices: given(args, "--prices"),
                spend: given(args, "--spend"),
                audit_dir: given(args, "--audit-dir"),
                audit_key_file: given(args, "--audit-key-file"),
                trusted_image_prefixes: all_given(args, "--trusted-image-prefix"),
                root_namespace: given(args, "--root-namespace"),
            },
        )
    }

    /// The address that is served: every interface, where none is named.
    pub fn address(&self) -> (r: String)
        ensures
            r@ == self.deep_view().address(),
    {
        match &self.addr {
            Some(a) => a.clone(),
            None => owned("0.0.0.0:8443"),
        }
    }

    /// The namespace of the cluster's own manifests.
    pub fn root(&self) -> (r: String)
        ensures
            r@ == self.deep_view().root(),
    {
        match &self.root_namespace {
            Some(n) => n.clone(),
            None => owned("lex-system"),
        }
    }

    /// The two inputs of the budget wall, by path: both or neither.
    pub fn budget_inputs(&self) -> (r: Result<Option<(&str, &str)>, ServeError>)
        ensures
            model::outcome(r) == (match (self.deep_view().prices, self.deep_view().spend) {
                (None, None) => Ok(None),
                (Some(p), Some(s)) => Ok(Some((p, s))),
                _ => Err(ServeErrorModel::Input(cli::half_a_budget())),
            }),
    {
        let prices: Option<&str> = match &self.prices {
            Some(p) => Some(p.as_str()),
            None => None,
        };
        let spend: Option<&str> = match &self.spend {
            Some(s) => Some(s.as_str()),
            None => None,
        };
        match spend_flags(prices, spend) {
            Ok(pair) => Ok(pair),
            Err(e) => Err(ServeError::Input(e)),
        }
    }

    /// Is a record of decisions to be written that nothing seals?
    pub fn unsealed(&self) -> (r: bool)
        ensures
            r == (self.audit_dir is Some && self.audit_key_file is None),
    {
        self.audit_dir.is_some() && self.audit_key_file.is_none()
    }
}

// ---------------------------------------------------------------------------------------------
// What is read at the start
// ---------------------------------------------------------------------------------------------
/// A complaint about what a file holds.
fn about(what: &str, path: &str, why: &str) -> (r: ServeError)
    ensures
        r.deep_view() == ServeErrorModel::Input(what@ + path@ + ": "@ + why@),
{
    ServeError::Input(owned(what).concat(path).concat(": ").concat(why))
}

/// Take the keyring that a file holds, given what was read of it.
pub fn take_keyring(path: &str, read: Result<Keyring, TrustError>) -> (r: Result<
    Keyring,
    ServeError,
>)
    ensures
        model::outcome(r) == (match model::outcome(read) {
            Ok(k) => Ok(k),
            Err(e) => Err(ServeErrorModel::Input("keyring "@ + path@ + ": "@ + e.message())),
        }),
{
    match read {
        Ok(k) => Ok(k),
        Err(e) => Err(about("keyring ", path, e.to_text().as_str())),
    }
}

/// Take the price list that a file holds, given what was read of it.
pub fn take_prices(path: &str, read: Result<PriceList, CostError>) -> (r: Result<
    PriceList,
    ServeError,
>)
    ensures
        model::outcome(r) == (match model::outcome(read) {
            Ok(p) => Ok(p),
            Err(e) => Err(ServeErrorModel::Input("prices "@ + path@ + ": "@ + e.message())),
        }),
{
    match read {
        Ok(p) => Ok(p),
        Err(e) => Err(about("prices ", path, e.to_text().as_str())),
    }
}

/// Take the spend report that a file holds, given what was read of it.
pub fn take_report(path: &str, read: Result<SpendReport, CostError>) -> (r: Result<
    SpendReport,
    ServeError,
>)
    ensures
        model::outcome(r) == (match model::outcome(read) {
            Ok(s) => Ok(s),
            Err(e) => Err(ServeErrorModel::Input("spend "@ + path@ + ": "@ + e.message())),
        }),
{
    match read {
        Ok(s) => Ok(s),
        Err(e) => Err(about("spend ", path, e.to_text().as_str())),
    }
}

/// The key that seals, from the text of a file. White space around it is ignored; anything but 32
/// bytes in hexadecimal is refused, since a wall that was meant to seal and did not is worse than
/// one that did not start.
pub fn take_audit_key(path: &str, hex_key: &str) -> (r: Result<[u8; 32], ServeError>)
    ensures
        match r {
            Ok(k) => digest::bytes_of(text::trimmed(hex_key@)) == Some(k@),
            Err(e) => {
                &&& e.deep_view() == ServeErrorModel::Input(
                    path@ + ": the audit signing key must be 32 hex-encoded bytes"@,
                )
                &&& match digest::bytes_of(text::trimmed(hex_key@)) {
                    Some(b) => b.len() != 32,
                    None => true,
                }
            },
        },
{
    match decode_key32(hex_key) {
        Ok(k) => Ok(k),
        Err(_) => Err(
            ServeError::Input(
                owned(path).concat(": the audit signing key must be 32 hex-encoded bytes"),
            ),
        ),
    }
}

// ---------------------------------------------------------------------------------------------
// Laws
// ---------------------------------------------------------------------------------------------
/// The server starts only with a certificate and a key, and every option is the value of its own flag.
pub proof fn an_option_is_the_value_of_its_flag(args: Seq<Seq<char>>)
    ensures
        options_of(args) is Ok <==> cli::flag_value(args, "--cert"@) is Some && cli::flag_value(
            args,
            "--key"@,
        ) is Some,
        options_of(args) matches Ok(o) ==> {
            &&& Some(o.cert) == cli::flag_value(args, "--cert"@)
            &&& Some(o.key) == cli::flag_value(args, "--key"@)
            &&& o.addr == cli::flag_value(args, "--addr"@)
            &&& o.trusted_keys == cli::flag_value(args, "--trusted-keys"@)
            &&& o.prices == cli::flag_value(args, "--prices"@)
            &&& o.spend == cli::flag_value(args, "--spend"@)
            &&& o.audit_dir == cli::flag_value(args, "--audit-dir"@)
            &&& o.audit_key_file == cli::flag_value(args, "--audit-key-file"@)
            &&& o.root_namespace == cli::flag_value(args, "--root-namespace"@)
            &&& o.trusted_image_prefixes == cli::flag_values(args, "--trusted-image-prefix"@)
        },
{
}

/// Without an address the server listens on every one, and without a root namespace it takes its own.
pub proof fn an_option_that_is_not_given_has_a_default(o: OptionsModel)
    ensures
        o.addr matches Some(a) ==> o.address() == a,
        o.addr is None ==> o.address() == "0.0.0.0:8443"@,
        o.root_namespace matches Some(n) ==> o.root() == n,
        o.root_namespace is None ==> o.root() == "lex-system"@,
{
}

} // verus!
