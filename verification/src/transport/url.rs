//! Remote addresses: `grpc://host:port/owner/repo` and its TLS form `grpcs://`.

use vstd::prelude::*;

use crate::text;
use crate::text::{contains_text, split_once, starts_with, strip_prefix};

verus! {

/// The owner or repository name of an address that gives none.
pub const DEFAULT_NAME: &'static str = "default";

/// An address of the gRPC transport.
pub open spec fn is_grpc(url: Seq<char>) -> bool {
    text::has_prefix(url, "grpc://"@) || text::has_prefix(url, "grpcs://"@)
}

/// The `http://` or `https://` address of a gRPC server; any other address as it is.
pub open spec fn endpoint(url: Seq<char>) -> Seq<char> {
    if text::has_prefix(url, "grpcs://"@) {
        "https://"@ + url.skip("grpcs://"@.len() as int)
    } else if text::has_prefix(url, "grpc://"@) {
        "http://"@ + url.skip("grpc://"@.len() as int)
    } else {
        url
    }
}

/// `name`, or the name that stands for a missing one.
pub open spec fn name_or_default(name: Seq<char>) -> Seq<char> {
    if name.len() == 0 {
        DEFAULT_NAME@
    } else {
        name
    }
}

/// What follows the host in an address, without the slash.
pub open spec fn path_of(url: Seq<char>) -> Seq<char> {
    let rest = match text::cut(url, "://"@) {
        Some(parts) => parts.1,
        None => url,
    };
    match text::cut(rest, "/"@) {
        Some(parts) => parts.1,
        None => Seq::empty(),
    }
}

/// The owner and the repository that an address names.
pub open spec fn owner_repo(url: Seq<char>) -> (Seq<char>, Seq<char>) {
    match text::cut(path_of(url), "/"@) {
        Some(parts) => (name_or_default(parts.0), name_or_default(parts.1)),
        None => (name_or_default(path_of(url)), DEFAULT_NAME@),
    }
}

/// `s` as far as the first `mark`, or all of it.
pub open spec fn before(s: Seq<char>, mark: Seq<char>) -> Seq<char> {
    match text::cut(s, mark) {
        Some(parts) => parts.0,
        None => s,
    }
}

/// The host and port that stand at the beginning of an address without its scheme.
pub open spec fn authority(rest: Seq<char>) -> Seq<char> {
    before(before(before(rest, "/"@), "?"@), "#"@)
}

/// The scheme, the host and the port of an address: what its path follows.
pub open spec fn origin(url: Seq<char>) -> Seq<char> {
    match text::cut(url, "://"@) {
        Some(parts) => parts.0 + "://"@ + authority(parts.1),
        None => authority(url),
    }
}

/// Whether the gRPC transport serves `url`: its scheme is `grpc` or `grpcs`.
pub fn is_grpc_url(url: &str) -> (grpc: bool)
    ensures
        grpc == is_grpc(url@),
{
    starts_with(url, "grpc://") || starts_with(url, "grpcs://")
}

/// The HTTP address of a gRPC server: `grpc://` becomes `http://` and
/// `grpcs://` becomes `https://`.
pub fn to_tonic_endpoint(url: &str) -> (address: String)
    ensures
        address@ == endpoint(url@),
{
    if let Some(rest) = strip_prefix(url, "grpcs://") {
        let mut address = "https://".to_string();
        address.append(rest);
        address
    } else if let Some(rest) = strip_prefix(url, "grpc://") {
        let mut address = "http://".to_string();
        address.append(rest);
        address
    } else {
        url.to_string()
    }
}

/// Whether `remote` is an address rather than the name of a configured remote.
pub fn looks_like_url(remote: &str) -> (address: bool)
    ensures
        address == text::has_text(remote@, "://"@),
{
    contains_text(remote, "://")
}

fn take_before<'a>(s: &'a str, mark: &str) -> (head: &'a str)
    ensures
        head@ == before(s@, mark@),
{
    match split_once(s, mark) {
        Some(parts) => parts.0,
        None => s,
    }
}

fn take_authority<'a>(rest: &'a str) -> (head: &'a str)
    ensures
        head@ == authority(rest@),
{
    take_before(take_before(take_before(rest, "/"), "?"), "#")
}

/// The scheme, the host and the port of an address.
pub fn origin_of(url: &str) -> (address: String)
    ensures
        address@ == origin(url@),
{
    match split_once(url, "://") {
        Some(parts) => {
            let mut address = parts.0.to_string();
            address.append("://");
            address.append(take_authority(parts.1));
            address
        },
        None => take_authority(url).to_string(),
    }
}

fn or_default(name: &str) -> (text: String)
    ensures
        text@ == name_or_default(name@),
{
    if name.is_empty() {
        DEFAULT_NAME.to_string()
    } else {
        name.to_string()
    }
}

/// The owner and the repository named in `grpc://host:port/owner/repo`.
pub fn parse_owner_repo(grpc_url: &str) -> (names: (String, String))
    ensures
        (names.0@, names.1@) == owner_repo(grpc_url@),
{
    let rest: &str = match split_once(grpc_url, "://") {
        Some(parts) => parts.1,
        None => grpc_url,
    };
    match split_once(rest, "/") {
        Some(parts) => {
            let path: &str = parts.1;
            match split_once(path, "/") {
                Some(names) => (or_default(names.0), or_default(names.1)),
                None => (or_default(path), DEFAULT_NAME.to_string()),
            }
        },
        None => {
            proof {
                reveal_strlit("/");
                assert forall|i: int| !text::occurs_at(Seq::<char>::empty(), "/"@, i) by {}
                assert(path_of(grpc_url@) == Seq::<char>::empty());
            }
            (DEFAULT_NAME.to_string(), DEFAULT_NAME.to_string())
        },
    }
}

/// The gRPC transport serves an address exactly if its HTTP address differs from it.
pub proof fn law_only_grpc_addresses_change(url: Seq<char>)
    ensures
        is_grpc(url) <==> endpoint(url) != url,
{
    reveal_strlit("grpc://");
    reveal_strlit("grpcs://");
    reveal_strlit("http://");
    reveal_strlit("https://");
    if text::has_prefix(url, "grpcs://"@) {
        assert(url.subrange(0, 8)[0] == url[0]);
        assert(endpoint(url)[0] == 'h');
    } else if text::has_prefix(url, "grpc://"@) {
        assert(url.subrange(0, 7)[0] == url[0]);
        assert(endpoint(url)[0] == 'h');
    }
}

/// An HTTP address is no gRPC address, and taking it once more changes nothing.
pub proof fn law_endpoint_is_settled(url: Seq<char>)
    ensures
        !is_grpc(endpoint(url)),
        endpoint(endpoint(url)) == endpoint(url),
{
    reveal_strlit("grpc://");
    reveal_strlit("grpcs://");
    reveal_strlit("http://");
    reveal_strlit("https://");
    let e = endpoint(url);
    if is_grpc(url) {
        assert(e[0] == 'h');
        if text::has_prefix(e, "grpc://"@) {
            assert(e.subrange(0, 7)[0] == e[0]);
        }
        if text::has_prefix(e, "grpcs://"@) {
            assert(e.subrange(0, 8)[0] == e[0]);
        }
    }
}

/// The plain and the TLS address of one server differ in the scheme alone, and so
/// do their HTTP addresses.
pub proof fn law_scheme_only(server: Seq<char>)
    ensures
        endpoint("grpc://"@ + server) == "http://"@ + server,
        endpoint("grpcs://"@ + server) == "https://"@ + server,
{
    reveal_strlit("grpc://");
    reveal_strlit("grpcs://");
    let plain = "grpc://"@ + server;
    let tls = "grpcs://"@ + server;
    if text::has_prefix(plain, "grpcs://"@) {
        assert(plain.subrange(0, 8)[4] == plain[4]);
        assert(false);
    }
    assert(plain.subrange(0, 7) =~= "grpc://"@);
    assert(plain.skip(7) =~= server);
    assert(tls.subrange(0, 8) =~= "grpcs://"@);
    assert(tls.skip(8) =~= server);
}

/// The address built from a server, an owner and a repository names that owner
/// and that repository.
pub proof fn law_address_names_owner_and_repo(
    scheme: Seq<char>,
    host: Seq<char>,
    owner: Seq<char>,
    repo: Seq<char>,
)
    requires
        scheme == "grpc"@ || scheme == "grpcs"@,
        !host.contains('/'),
        !owner.contains('/'),
        owner.len() > 0,
        repo.len() > 0,
    ensures
        owner_repo(scheme + "://"@ + host + "/"@ + owner + "/"@ + repo) == (owner, repo),
{
    reveal_strlit("grpc");
    reveal_strlit("grpcs");
    reveal_strlit("://");
    reveal_strlit("/");
    let tail = host + "/"@ + owner + "/"@ + repo;
    let url = scheme + "://"@ + host + "/"@ + owner + "/"@ + repo;
    assert(url =~= scheme + "://"@ + tail);
    lemma_scheme_cut(scheme, tail);
    let path = owner + "/"@ + repo;
    lemma_first_slash(host, path);
    assert(tail =~= host + "/"@ + path);
    lemma_first_slash(owner, repo);
}

/// The first slash of `head/rest` is the one between, where `head` holds none.
proof fn lemma_first_slash(head: Seq<char>, rest: Seq<char>)
    requires
        !head.contains('/'),
    ensures
        text::cut(head + "/"@ + rest, "/"@) == Some((head, rest)),
{
    reveal_strlit("/");
    let s = head + "/"@ + rest;
    let n = head.len() as int;
    assert(text::is_first_at(s, "/"@, n)) by {
        assert(s.subrange(n, n + 1) =~= "/"@);
        assert forall|j: int| 0 <= j < n implies !text::occurs_at(s, "/"@, j) by {
            if text::occurs_at(s, "/"@, j) {
                assert(s.subrange(j, j + 1)[0] == s[j]);
                assert(s[j] == head[j]);
                assert(head.contains(head[j]));
            }
        }
    }
    text::lemma_cut_at(s, "/"@, n);
    assert(s.subrange(0, n) =~= head);
    assert(s.subrange(n + 1, s.len() as int) =~= rest);
}

/// The REST API of a server is on the host and port of its gRPC address, whatever owner and
/// repository the address names.
pub proof fn law_rest_api_is_on_the_host(host: Seq<char>, path: Seq<char>)
    requires
        !host.contains('/'),
        !host.contains('?'),
        !host.contains('#'),
    ensures
        origin(endpoint("grpc://"@ + host)) == "http://"@ + host,
        origin(endpoint("grpcs://"@ + host)) == "https://"@ + host,
        origin(endpoint("grpc://"@ + host + "/"@ + path)) == "http://"@ + host,
        origin(endpoint("grpcs://"@ + host + "/"@ + path)) == "https://"@ + host,
{
    reveal_strlit("/");
    reveal_strlit("?");
    reveal_strlit("#");
    let long = host + "/"@ + path;
    lemma_no_mark(host, "/"@);
    lemma_no_mark(host, "?"@);
    lemma_no_mark(host, "#"@);
    lemma_first_slash(host, path);
    assert("grpc://"@ + host + "/"@ + path =~= "grpc://"@ + long);
    assert("grpcs://"@ + host + "/"@ + path =~= "grpcs://"@ + long);
    law_scheme_only(host);
    law_scheme_only(long);
    lemma_origin(host);
    lemma_origin(long);
}

/// The origin of an HTTP address is its scheme with what stands before the path.
proof fn lemma_origin(rest: Seq<char>)
    ensures
        origin("http://"@ + rest) == "http://"@ + authority(rest),
        origin("https://"@ + rest) == "https://"@ + authority(rest),
{
    reveal_strlit("http");
    reveal_strlit("https");
    reveal_strlit("http://");
    reveal_strlit("https://");
    reveal_strlit("://");
    lemma_scheme_cut("http"@, rest);
    lemma_scheme_cut("https"@, rest);
    assert("http://"@ =~= "http"@ + "://"@);
    assert("https://"@ =~= "https"@ + "://"@);
}

/// The first `://` of an address is the one behind its scheme.
proof fn lemma_scheme_cut(scheme: Seq<char>, rest: Seq<char>)
    requires
        !scheme.contains(':'),
    ensures
        text::cut(scheme + "://"@ + rest, "://"@) == Some((scheme, rest)),
{
    reveal_strlit("://");
    let url = scheme + "://"@ + rest;
    let n = scheme.len() as int;
    assert(text::is_first_at(url, "://"@, n)) by {
        assert(url.subrange(n, n + 3) =~= "://"@);
        assert forall|j: int| 0 <= j < n implies !text::occurs_at(url, "://"@, j) by {
            if text::occurs_at(url, "://"@, j) {
                assert(url.subrange(j, j + 3)[0] == url[j]);
                assert(url[j] == scheme[j]);
                assert(scheme.contains(scheme[j]));
            }
        }
    }
    text::lemma_cut_at(url, "://"@, n);
    assert(url.subrange(0, n) =~= scheme);
    assert(url.subrange(n + 3, url.len() as int) =~= rest);
}

/// Text without a mark is all before it.
proof fn lemma_no_mark(s: Seq<char>, mark: Seq<char>)
    requires
        mark.len() == 1,
        !s.contains(mark[0]),
    ensures
        before(s, mark) == s,
{
    assert forall|j: int| !text::occurs_at(s, mark, j) by {
        if text::occurs_at(s, mark, j) {
            assert(s.subrange(j, j + 1)[0] == s[j]);
            assert(s.contains(s[j]));
        }
    }
}

/// A name that an address leaves out, or leaves empty, is `default`.
pub proof fn law_missing_names_are_default(
    scheme: Seq<char>,
    host: Seq<char>,
    owner: Seq<char>,
    repo: Seq<char>,
)
    requires
        scheme == "grpc"@ || scheme == "grpcs"@,
        !host.contains('/'),
        !owner.contains('/'),
        owner.len() > 0,
        repo.len() > 0,
    ensures
        owner_repo(scheme + "://"@ + host) == ("default"@, "default"@),
        owner_repo(scheme + "://"@ + host + "/"@) == ("default"@, "default"@),
        owner_repo(scheme + "://"@ + host + "/"@ + owner) == (owner, "default"@),
        owner_repo(scheme + "://"@ + host + "/"@ + owner + "/"@) == (owner, "default"@),
        owner_repo(scheme + "://"@ + host + "/"@ + "/"@ + repo) == ("default"@, repo),
{
    reveal_strlit("grpc");
    reveal_strlit("grpcs");
    reveal_strlit("://");
    reveal_strlit("/");
    let none = Seq::<char>::empty();
    lemma_scheme_cut(scheme, host);
    lemma_no_slash(host);
    lemma_no_slash(none);
    lemma_no_slash(owner);

    let tail = host + "/"@ + none;
    assert(scheme + "://"@ + host + "/"@ =~= scheme + "://"@ + tail);
    lemma_scheme_cut(scheme, tail);
    lemma_first_slash(host, none);

    let tail = host + "/"@ + owner;
    assert(scheme + "://"@ + host + "/"@ + owner =~= scheme + "://"@ + tail);
    lemma_scheme_cut(scheme, tail);
    lemma_first_slash(host, owner);

    let path = owner + "/"@ + none;
    let tail = host + "/"@ + path;
    assert(scheme + "://"@ + host + "/"@ + owner + "/"@ =~= scheme + "://"@ + tail);
    lemma_scheme_cut(scheme, tail);
    lemma_first_slash(host, path);
    lemma_first_slash(owner, none);

    let path = none + "/"@ + repo;
    let tail = host + "/"@ + path;
    assert(scheme + "://"@ + host + "/"@ + "/"@ + repo =~= scheme + "://"@ + tail);
    lemma_scheme_cut(scheme, tail);
    lemma_first_slash(host, path);
    lemma_first_slash(none, repo);
}

/// An address without a scheme names its owner and its repository too.
pub proof fn law_names_need_no_scheme(host: Seq<char>, owner: Seq<char>, repo: Seq<char>)
    requires
        !host.contains('/'),
        !owner.contains('/'),
        owner.len() > 0,
        repo.len() > 0,
        !(host + "/"@ + owner + "/"@ + repo).contains(':'),
    ensures
        owner_repo(host + "/"@ + owner + "/"@ + repo) == (owner, repo),
{
    reveal_strlit("://");
    reveal_strlit("/");
    let url = host + "/"@ + owner + "/"@ + repo;
    assert forall|j: int| !text::occurs_at(url, "://"@, j) by {
        if text::occurs_at(url, "://"@, j) {
            assert(url.subrange(j, j + 3)[0] == url[j]);
            assert(url.contains(url[j]));
        }
    }
    let path = owner + "/"@ + repo;
    assert(url =~= host + "/"@ + path);
    lemma_first_slash(host, path);
    lemma_first_slash(owner, repo);
}

/// The origin of an address ends where its path, its query or its fragment begins, whatever
/// comes behind; it has its scheme where the address has one.
pub proof fn law_origin_ends_at_the_first_mark(
    scheme: Seq<char>,
    host: Seq<char>,
    mark: char,
    behind: Seq<char>,
)
    requires
        !scheme.contains(':'),
        !host.contains('/'),
        !host.contains('?'),
        !host.contains('#'),
        mark == '/' || mark == '?' || mark == '#',
    ensures
        origin(scheme + "://"@ + host) == scheme + "://"@ + host,
        origin(scheme + "://"@ + host + seq![mark] + behind) == scheme + "://"@ + host,
        !(host + seq![mark] + behind).contains(':') ==> origin(host + seq![mark] + behind) == host,
{
    reveal_strlit("://");
    let long = host + seq![mark] + behind;
    assert(host.take(host.len() as int) =~= host);
    assert(long.take(host.len() as int) =~= host);
    lemma_authority(host, host);
    lemma_authority(host, long);
    lemma_scheme_cut(scheme, host);
    lemma_scheme_cut(scheme, long);
    assert(scheme + "://"@ + host + seq![mark] + behind =~= scheme + "://"@ + long);
    if !long.contains(':') {
        assert forall|j: int| !text::occurs_at(long, "://"@, j) by {
            if text::occurs_at(long, "://"@, j) {
                assert(long.subrange(j, j + 3)[0] == long[j]);
                assert(long.contains(long[j]));
            }
        }
    }
}

/// What stands before the first of the three marks is the host and port.
proof fn lemma_authority(host: Seq<char>, rest: Seq<char>)
    requires
        !host.contains('/'),
        !host.contains('?'),
        !host.contains('#'),
        host.len() <= rest.len(),
        rest.take(host.len() as int) == host,
        host.len() < rest.len() ==> (rest[host.len() as int] == '/' || rest[host.len() as int]
            == '?' || rest[host.len() as int] == '#'),
    ensures
        authority(rest) == host,
{
    reveal_strlit("/");
    reveal_strlit("?");
    reveal_strlit("#");
    lemma_before(host, rest, "/"@);
    let a = before(rest, "/"@);
    lemma_before(host, a, "?"@);
    let b = before(a, "?"@);
    lemma_before(host, b, "#"@);
    let c = before(b, "#"@);
    assert(c.take(host.len() as int) =~= c);
}

/// What stands before a mark begins the text, does not end within a head that lacks the
/// mark, and does not hold the mark.
proof fn lemma_before(head: Seq<char>, s: Seq<char>, mark: Seq<char>)
    requires
        mark.len() == 1,
        head.len() <= s.len(),
        s.take(head.len() as int) == head,
        !head.contains(mark[0]),
    ensures
        head.len() <= before(s, mark).len() <= s.len(),
        before(s, mark).take(head.len() as int) == head,
        forall|i: int| 0 <= i < before(s, mark).len() ==> #[trigger] before(s, mark)[i] == s[i],
        head.len() < s.len() && s[head.len() as int] == mark[0] ==> before(s, mark).len()
            == head.len(),
{
    text::law_cut_parts_rejoin(s, mark);
    let b = before(s, mark);
    let n = head.len() as int;
    match text::cut(s, mark) {
        Some((first, tail)) => {
            assert(s[first.len() as int] == mark[0]);
            if first.len() < n {
                assert(head[first.len() as int] == s.take(n)[first.len() as int]);
                assert(head.contains(head[first.len() as int]));
            }
            if n < s.len() && s[n] == mark[0] && n < first.len() {
                assert(s.subrange(n, n + 1) =~= mark);
                assert(s.subrange(n, n + mark.len()) == mark);
            }
        },
        None => {
            if n < s.len() && s[n] == mark[0] {
                assert(s.subrange(n, n + 1) =~= mark);
                assert(s.subrange(n, n + mark.len()) == mark);
            }
        },
    }
    assert(b.take(n) =~= s.take(n));
}

/// Text without a slash is not cut at one.
proof fn lemma_no_slash(s: Seq<char>)
    requires
        !s.contains('/'),
    ensures
        text::cut(s, "/"@) is None,
{
    reveal_strlit("/");
    assert forall|j: int| !text::occurs_at(s, "/"@, j) by {
        if text::occurs_at(s, "/"@, j) {
            assert(s.subrange(j, j + 1)[0] == s[j]);
            assert(s.contains(s[j]));
        }
    }
}

} // verus!
