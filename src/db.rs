//! What database bootstrap derives from the connection URL: the database to
//! make sure of, the maintenance URL to connect to meanwhile, and the statement
//! that creates the database.
use vstd::prelude::*;

use crate::text::opt_view;

verus! {

/// Why a connection URL cannot be used for bootstrap.
#[derive(Debug, Clone, Copy, PartialEq, Eq, Structural)]
pub enum BootstrapError {
    /// The text does not parse as a URL.
    InvalidUrl,
    /// The URL's path names no database.
    MissingDatabaseName,
}

impl BootstrapError {
    /// The text of this error.
    pub fn to_string(&self) -> (r: String)
        ensures
            r@ == match self {
                BootstrapError::InvalidUrl => "invalid DATABASE_URL"@,
                BootstrapError::MissingDatabaseName => "DATABASE_URL must include a database name"@,
            },
    {
        match self {
            BootstrapError::InvalidUrl => String::from_str("invalid DATABASE_URL"),
            BootstrapError::MissingDatabaseName => String::from_str(
                "DATABASE_URL must include a database name",
            ),
        }
    }
}

/// The database named by a connection URL and the URL of the maintenance
/// database on the same server.
#[derive(Debug)]
pub struct DatabaseTarget {
    pub name: String,
    pub maintenance_url: String,
}

/// The path of the URL that `url::Url::parse` reads from a text, if it parses.
pub uninterp spec fn url_path(s: Seq<char>) -> Option<Seq<char>>;

/// The text of the URL parsed from `s` once `url::Url::set_path` gave it the
/// path `p`, if `s` parses.
pub uninterp spec fn url_with_path(s: Seq<char>, p: Seq<char>) -> Option<Seq<char>>;

/// Relies on `url::Url::parse` and `Url::path`; a parse error becomes `None`.
#[verifier::external_body]
fn path_of_url(s: &str) -> (r: Option<String>)
    ensures
        opt_view(r) == url_path(s@),
{
    url::Url::parse(s).ok().map(|u| u.path().to_owned())
}

/// Relies on `url::Url::set_path` on the URL `url::Url::parse` reads, then on
/// `Url::as_str`; a parse error becomes `None`.
#[verifier::external_body]
fn url_replacing_path(s: &str, p: &str) -> (r: Option<String>)
    ensures
        opt_view(r) == url_with_path(s@, p@),
{
    let mut u = url::Url::parse(s).ok()?;
    u.set_path(p);
    Some(u.as_str().to_owned())
}

/// `s` without its leading slashes.
pub open spec fn strip_slashes(s: Seq<char>) -> Seq<char>
    decreases s.len(),
{
    if s.len() > 0 && s[0] == '/' {
        strip_slashes(s.drop_first())
    } else {
        s
    }
}

/// Removes the leading slashes of `s`.
pub fn trim_leading_slashes(s: &str) -> (r: &str)
    ensures
        r@ == strip_slashes(s@),
{
    let n = s.unicode_len();
    let mut i: usize = 0;
    assert(s@.skip(0) =~= s@);
    while i < n && s.get_char(i) == '/'
        invariant
            n == s@.len(),
            i <= n,
            strip_slashes(s@) == strip_slashes(s@.skip(i as int)),
        decreases n - i,
    {
        assert(s@.skip(i as int).drop_first() =~= s@.skip(i + 1));
        i += 1;
    }
    let r = s.substring_char(i, n);
    assert(r@ =~= s@.skip(i as int));
    r
}

/// What bootstrap derives from the connection URL `url`: the database named by
/// its path (leading slashes removed), which must not be empty, and the same
/// URL with the path `/postgres`.
pub fn database_target(url: &str) -> (r: Result<DatabaseTarget, BootstrapError>)
    ensures
        match url_path(url@) {
            None => r == Err::<DatabaseTarget, BootstrapError>(BootstrapError::InvalidUrl),
            Some(path) => if strip_slashes(path).len() == 0 {
                r == Err::<DatabaseTarget, BootstrapError>(BootstrapError::MissingDatabaseName)
            } else {
                match url_with_path(url@, "/postgres"@) {
                    None => r == Err::<DatabaseTarget, BootstrapError>(BootstrapError::InvalidUrl),
                    Some(m) => r.is_ok() && r.unwrap().name@ == strip_slashes(path)
                        && r.unwrap().maintenance_url@ == m,
                }
            },
        },
{
    let path = match path_of_url(url) {
        Some(p) => p,
        None => return Err(BootstrapError::InvalidUrl),
    };
    let name = trim_leading_slashes(path.as_str());
    if name.is_empty() {
        return Err(BootstrapError::MissingDatabaseName);
    }
    match url_replacing_path(url, "/postgres") {
        Some(m) => Ok(DatabaseTarget { name: name.to_owned(), maintenance_url: m }),
        None => Err(BootstrapError::InvalidUrl),
    }
}

/// The statement that creates the database `name`: `CREATE DATABASE "name"`.
pub fn create_database_statement(name: &str) -> (r: String)
    ensures
        r@ == "CREATE DATABASE \""@ + name@ + "\""@,
{
    let mut r = String::from_str("CREATE DATABASE \"");
    r.append(name);
    r.append("\"");
    r
}

} // verus!
