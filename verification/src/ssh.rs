//! SSH connection settings and the messages the interface sends to the
//! connection. The connection itself (network, authentication) is the
//! caller's part.
use vstd::prelude::*;

use vstd::string::StringSliceAdditionalSpecFns;

verus! {

/// SSH connection configuration.
#[derive(Debug)]
pub struct SshConfig {
    pub host: String,
    pub port: u16,
    pub username: String,
    pub auth: SshAuth,
}

/// SSH authentication method.
#[derive(Debug)]
pub enum SshAuth {
    Password(String),
    Key { path: String, passphrase: Option<String> },
    Agent,
}

/// Messages sent from the interface to the SSH connection.
#[derive(Debug)]
pub enum SshMsg {
    Input(Vec<u8>),
    Resize { cols: u16, rows: u16 },
}

/// `rest` appended to `base` the way `Path::join` does it on Unix, on the
/// bytes of the two paths: an absolute `rest` replaces `base`, and a `/`
/// separates the two unless `base` is empty or already ends in one.
pub open spec fn spec_join_path(base: Seq<u8>, rest: Seq<u8>) -> Seq<u8> {
    if rest.len() > 0 && rest[0] == 0x2F {
        rest
    } else if base.len() == 0 {
        rest
    } else if base.last() == 0x2F {
        base + rest
    } else {
        base + seq![0x2Fu8] + rest
    }
}

/// Whether the path `path` (its bytes) starts with `~/`.
pub open spec fn starts_with_home(path: Seq<u8>) -> bool {
    path.len() >= 2 && path[0] == 0x7E && path[1] == 0x2F
}

/// `path` with a leading `~/` replaced by the home directory, when there is one.
pub open spec fn spec_expand_home(path: Seq<u8>, home: Option<Seq<u8>>) -> Seq<u8> {
    if starts_with_home(path) && home is Some {
        spec_join_path(home->0, path.skip(2))
    } else {
        path
    }
}

pub open spec fn opt_bytes_view(o: Option<&[u8]>) -> Option<Seq<u8>> {
    match o {
        Some(b) => Some(b@),
        None => None,
    }
}

/// A copy of `b`.
pub fn copy_bytes(b: &[u8]) -> (r: Vec<u8>)
    ensures
        r@ == b@,
{
    let mut out: Vec<u8> = Vec::new();
    let mut i: usize = 0;
    while i < b.len()
        invariant
            i <= b@.len(),
            out@ == b@.take(i as int),
        decreases b.len() - i,
    {
        out.push(b[i]);
        assert(b@.take(i + 1) =~= b@.take(i as int).push(b@[i as int]));
        i += 1;
    }
    assert(b@.take(b@.len() as int) =~= b@);
    out
}

/// `rest` appended to `base` the way `Path::join` does it on Unix.
pub fn join_path(base: &[u8], rest: &[u8]) -> (r: Vec<u8>)
    ensures
        r@ == spec_join_path(base@, rest@),
{
    if rest.len() > 0 && rest[0] == 0x2F {
        return copy_bytes(rest);
    }
    let mut out = copy_bytes(base);
    if base.len() > 0 && base[base.len() - 1] != 0x2F {
        out.push(0x2F);
    }
    let mut tail = copy_bytes(rest);
    out.append(&mut tail);
    assert(base@.len() > 0 ==> base@.last() == base@[base@.len() - 1]);
    assert(out@ =~= spec_join_path(base@, rest@));
    out
}

/// Expands a leading `~/` of the key path `path` with the home directory
/// `home`; the result is the bytes of the path.
pub fn expand_home(path: &str, home: Option<&[u8]>) -> (r: Vec<u8>)
    ensures
        r@ == spec_expand_home(path.spec_bytes(), opt_bytes_view(home)),
{
    let p = path.as_bytes();
    if p.len() >= 2 && p[0] == 0x7E && p[1] == 0x2F {
        if let Some(h) = home {
            let rest = copy_range_bytes(p, 2, p.len());
            assert(rest@ =~= p@.skip(2));
            return join_path(h, rest.as_slice());
        }
    }
    copy_bytes(p)
}

/// A copy of `b[lo..hi]`.
fn copy_range_bytes(b: &[u8], lo: usize, hi: usize) -> (r: Vec<u8>)
    requires
        lo <= hi <= b@.len(),
    ensures
        r@ == b@.subrange(lo as int, hi as int),
{
    let mut out: Vec<u8> = Vec::new();
    let mut i = lo;
    while i < hi
        invariant
            lo <= i <= hi <= b@.len(),
            out@ == b@.subrange(lo as int, i as int),
        decreases hi - i,
    {
        out.push(b[i]);
        i += 1;
    }
    out
}

/// The user's home directory (`dirs::home_dir`), as the bytes of the path
/// (`OsString::into_encoded_bytes`). Nothing is stated of the value: it
/// comes from the environment.
#[verifier::external_body]
pub(crate) fn home_dir() -> Option<Vec<u8>> {
    match dirs::home_dir() {
        Some(p) => Some(p.into_os_string().into_encoded_bytes()),
        None => None,
    }
}

/// Expands a leading `~/` in a key path with the user's home directory;
/// the result is the bytes of the path.
pub fn shellexpand_path(path: &str) -> (r: Vec<u8>)
    ensures
        exists|home: Option<Seq<u8>>| r@ == #[trigger] spec_expand_home(path.spec_bytes(), home),
        !starts_with_home(path.spec_bytes()) ==> r@ == path.spec_bytes(),
{
    let home = home_dir();
    match &home {
        Some(h) => expand_home(path, Some(h.as_slice())),
        None => expand_home(path, None),
    }
}


/// Expanding `~/`: a path that starts with `~/` becomes the home directory
/// followed by the rest of the path, with one `/` between them (none added
/// when the home already ends in one), when the rest is relative; any other
/// path, or any path when there is no home directory, is left as it is.
pub proof fn law_expand_home(path: Seq<u8>, home: Option<Seq<u8>>)
    ensures
        !starts_with_home(path) || home is None ==> spec_expand_home(path, home) == path,
        starts_with_home(path) && home is Some && home->0.len() > 0 && (path.len() == 2
            || path[2] != 0x2F) ==> ({
            let h = home->0;
            let r = spec_expand_home(path, home);
            let sep: int = if h.last() == 0x2F {
                0
            } else {
                1
            };
            &&& r.len() == h.len() + sep + path.len() - 2
            &&& r.take(h.len() as int) == h
            &&& sep == 1 ==> r[h.len() as int] == 0x2F
            &&& r.skip(h.len() + sep) == path.skip(2)
        }),
{
    if starts_with_home(path) && home is Some && home->0.len() > 0 && (path.len() == 2 || path[2]
        != 0x2F) {
        let h = home->0;
        let rest = path.skip(2);
        let r = spec_expand_home(path, home);
        if h.last() == 0x2F {
            assert(r =~= h + rest);
            assert((h + rest).take(h.len() as int) =~= h);
            assert((h + rest).skip(h.len() as int) =~= rest);
        } else {
            assert(r =~= h + seq![0x2Fu8] + rest);
            assert((h + seq![0x2Fu8] + rest).take(h.len() as int) =~= h);
            assert((h + seq![0x2Fu8] + rest).skip(h.len() + 1 as int) =~= rest);
        }
    }
}

} // verus!
