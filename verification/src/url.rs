use vstd::prelude::*;
use vstd::slice::slice_subrange;
use vstd::slice::slice_to_vec;
use crate::io_error::{invalid_input_io_error, ErrorKind, IoError};

verus! {

/// Where a socket connects or binds to.
#[derive(Debug)]
pub enum Url {
    /// A TCP address: the host as it is written, and the port.
    Tcp { host: Vec<u8>, port: u16 },
    /// A local socket: the path as it is written.
    Ipc { path: Vec<u8> },
}

/// The bytes of `tcp://`.
pub open spec fn tcp_scheme() -> Seq<u8> {
    seq![116u8, 99u8, 112u8, 58u8, 47u8, 47u8]
}

/// The bytes of `ipc://`.
pub open spec fn ipc_scheme() -> Seq<u8> {
    seq![105u8, 112u8, 99u8, 58u8, 47u8, 47u8]
}

/// Whether a byte is a decimal digit.
pub open spec fn is_digit(b: u8) -> bool {
    48 <= b <= 57
}

/// Whether all the bytes are decimal digits.
pub open spec fn are_digits(s: Seq<u8>) -> bool {
    forall|i: int| 0 <= i < s.len() ==> is_digit(#[trigger] s[i])
}

/// The number that decimal digits stand for.
pub open spec fn decimal_value(digits: Seq<u8>) -> nat
    decreases digits.len(),
{
    if digits.len() == 0 {
        0
    } else {
        decimal_value(digits.drop_last()) * 10 + (digits.last() - 48) as nat
    }
}

/// Whether `url` is `tcp://`, a host, a colon and the port `port` in one to
/// five decimal digits.
pub open spec fn is_tcp_url(url: Seq<u8>, host: Seq<u8>, port: u16) -> bool {
    exists|digits: Seq<u8>|
        {
            &&& #[trigger] tcp_address(host, digits) == url
            &&& host.len() > 0
            &&& 1 <= digits.len() <= 5
            &&& are_digits(digits)
            &&& decimal_value(digits) == port
        }
}

/// `tcp://`, a host, a colon and a port together.
pub open spec fn tcp_address(host: Seq<u8>, digits: Seq<u8>) -> Seq<u8> {
    tcp_scheme() + host + seq![58u8] + digits
}

/// Whether `url` is `ipc://` and a path that is not empty.
pub open spec fn is_ipc_url(url: Seq<u8>, path: Seq<u8>) -> bool {
    url == ipc_scheme() + path && path.len() > 0
}

/// Whether the bytes begin with `tcp://`.
fn has_tcp_scheme(url: &[u8]) -> (has: bool)
    ensures
        has == (url@.len() >= 6 && url@.subrange(0, 6) == tcp_scheme()),
{
    if url.len() < 6 {
        return false;
    }
    let has = url[0] == 116 && url[1] == 99 && url[2] == 112 && url[3] == 58 && url[4] == 47
        && url[5] == 47;
    proof {
        if has {
            assert(url@.subrange(0, 6) =~= tcp_scheme());
        } else {
            let front = url@.subrange(0, 6);
            assert(front[0] == url@[0] && front[1] == url@[1] && front[2] == url@[2] && front[3]
                == url@[3] && front[4] == url@[4] && front[5] == url@[5]);
        }
    }
    has
}

/// Whether the bytes begin with `ipc://`.
fn has_ipc_scheme(url: &[u8]) -> (has: bool)
    ensures
        has == (url@.len() >= 6 && url@.subrange(0, 6) == ipc_scheme()),
{
    if url.len() < 6 {
        return false;
    }
    let has = url[0] == 105 && url[1] == 112 && url[2] == 99 && url[3] == 58 && url[4] == 47
        && url[5] == 47;
    proof {
        if has {
            assert(url@.subrange(0, 6) =~= ipc_scheme());
        } else {
            let front = url@.subrange(0, 6);
            assert(front[0] == url@[0] && front[1] == url@[1] && front[2] == url@[2] && front[3]
                == url@[3] && front[4] == url@[4] && front[5] == url@[5]);
        }
    }
    has
}

/// The number that the digits stand for, if they are one to five decimal
/// digits that stand for a port.
fn parse_port(digits: &[u8]) -> (port: Option<u16>)
    ensures
        match port {
            Some(p) => 1 <= digits@.len() <= 5 && are_digits(digits@) && decimal_value(digits@)
                == p,
            None => !(1 <= digits@.len() <= 5 && are_digits(digits@) && decimal_value(digits@)
                <= u16::MAX),
        },
{
    if digits.len() == 0 || digits.len() > 5 {
        return None;
    }
    let mut value: u32 = 0;
    let mut i: usize = 0;
    proof {
        assert(digits@.subrange(0, 0) =~= Seq::<u8>::empty());
    }
    while i < digits.len()
        invariant
            i <= digits@.len() <= 5,
            are_digits(digits@.subrange(0, i as int)),
            value == decimal_value(digits@.subrange(0, i as int)),
            value < pow10(i as nat),
        decreases digits@.len() - i,
    {
        let d = digits[i];
        if d < 48 || d > 57 {
            proof {
                assert(!is_digit(digits@[i as int]));
            }
            return None;
        }
        proof {
            let upto = digits@.subrange(0, i + 1);
            assert(upto.drop_last() =~= digits@.subrange(0, i as int));
            assert(upto.last() == d);
            assert forall|k: int| 0 <= k < upto.len() implies is_digit(#[trigger] upto[k]) by {
                if k < i {
                    assert(digits@.subrange(0, i as int)[k] == upto[k]);
                }
            }
            pow10_is_small(i as nat);
            pow10_is_small((i + 1) as nat);
        }
        value = value * 10 + (d - 48) as u32;
        i = i + 1;
    }
    proof {
        assert(digits@.subrange(0, i as int) =~= digits@);
    }
    if value > 65535 {
        None
    } else {
        Some(value as u16)
    }
}

/// Ten to the power of `n`.
pub open spec fn pow10(n: nat) -> nat
    decreases n,
{
    if n == 0 {
        1
    } else {
        10 * pow10((n - 1) as nat)
    }
}

proof fn pow10_is_small(n: nat)
    requires
        n <= 5,
    ensures
        pow10(n) <= 100000,
        n > 0 ==> pow10(n) == 10 * pow10((n - 1) as nat),
{
    reveal_with_fuel(pow10, 6);
}

/// Where the last colon of the bytes is.
fn last_colon(s: &[u8]) -> (at: Option<usize>)
    ensures
        match at {
            Some(i) => i < s@.len() && s@[i as int] == 58 && forall|k: int|
                i < k < s@.len() ==> s@[k] != 58,
            None => forall|k: int| 0 <= k < s@.len() ==> s@[k] != 58,
        },
{
    let mut i: usize = s.len();
    while i > 0
        invariant
            i <= s@.len(),
            forall|k: int| i <= k < s@.len() ==> s@[k] != 58,
        decreases i,
    {
        i = i - 1;
        if s[i] == 58 {
            return Some(i);
        }
    }
    None
}

/// Reads a URL: `tcp://`, a host, a colon and a port; or `ipc://` and a
/// path. Anything else is refused as invalid input.
pub fn parse(url: &[u8]) -> (r: Result<Url, IoError>)
    ensures
        match r {
            Ok(Url::Tcp { host, port }) => is_tcp_url(url@, host@, port),
            Ok(Url::Ipc { path }) => is_ipc_url(url@, path@),
            Err(e) => {
                &&& e.kind == ErrorKind::InvalidInput
                &&& forall|host: Seq<u8>, port: u16| !is_tcp_url(url@, host, port)
                &&& forall|path: Seq<u8>| !is_ipc_url(url@, path)
            },
        },
{
    if has_tcp_scheme(url) {
        let rest = slice_subrange(url, 6, url.len());
        proof {
            assert(url@ =~= tcp_scheme() + rest@);
            assert forall|path: Seq<u8>| !is_ipc_url(url@, path) by {
                if is_ipc_url(url@, path) {
                    assert((ipc_scheme() + path)[0] == 105);
                    assert(url@[0] == 116);
                }
            }
        }
        match last_colon(rest) {
            None => {
                proof {
                    assert forall|host: Seq<u8>, port: u16| !is_tcp_url(url@, host, port) by {
                        if is_tcp_url(url@, host, port) {
                            let digits = choose|digits: Seq<u8>|
                                #[trigger] tcp_address(host, digits) == url@;
                            let k = host.len() as int;
                            assert(tcp_address(host, digits)[6 + k] == 58);
                            assert(rest@[k] == url@[6 + k]);
                        }
                    }
                }
                Err(invalid_input_io_error("invalid tcp address: no port"))
            },
            Some(colon) => {
                let host = slice_subrange(rest, 0, colon);
                let digits = slice_subrange(rest, colon + 1, rest.len());
                proof {
                    assert(rest@ =~= host@ + seq![58u8] + digits@);
                    assert(url@ =~= tcp_address(host@, digits@));
                    // any other way to read the URL splits it at the same colon
                    assert forall|h: Seq<u8>, d: Seq<u8>|
                        #[trigger] tcp_address(h, d) == url@ && are_digits(d) implies h == host@
                        && d == digits@ by {
                        let k = h.len() as int;
                        assert(tcp_address(h, d)[6 + k] == 58);
                        assert(rest@[k] == url@[6 + k]);
                        if k < colon {
                            let j = colon - k - 1;
                            assert(tcp_address(h, d)[6 + k + 1 + j] == d[j]);
                            assert(rest@[colon as int] == url@[6 + colon]);
                            assert(is_digit(d[j]));
                        }
                        assert(k == colon);
                        assert(h =~= host@) by {
                            assert forall|i: int| 0 <= i < k implies h[i] == host@[i] by {
                                assert(tcp_address(h, d)[6 + i] == h[i]);
                                assert(rest@[i] == url@[6 + i]);
                            }
                        }
                        assert(d =~= digits@) by {
                            assert(d.len() == digits@.len());
                            assert forall|i: int| 0 <= i < d.len() implies d[i] == digits@[i] by {
                                assert(tcp_address(h, d)[6 + k + 1 + i] == d[i]);
                                assert(rest@[k + 1 + i] == url@[6 + k + 1 + i]);
                            }
                        }
                    }
                }
                if host.len() == 0 {
                    proof {
                        assert forall|h: Seq<u8>, port: u16| !is_tcp_url(url@, h, port) by {
                            if is_tcp_url(url@, h, port) {
                                let d = choose|d: Seq<u8>|
                                    {
                                        &&& #[trigger] tcp_address(h, d) == url@
                                        &&& h.len() > 0
                                        &&& 1 <= d.len() <= 5
                                        &&& are_digits(d)
                                        &&& decimal_value(d) == port
                                    };
                                assert(h == host@);
                            }
                        }
                    }
                    return Err(invalid_input_io_error("invalid tcp address: no host"));
                }
                match parse_port(digits) {
                    Some(port) => Ok(Url::Tcp { host: slice_to_vec(host), port }),
                    None => {
                        proof {
                            assert forall|h: Seq<u8>, port: u16| !is_tcp_url(url@, h, port) by {
                                if is_tcp_url(url@, h, port) {
                                    let d = choose|d: Seq<u8>|
                                        {
                                            &&& #[trigger] tcp_address(h, d) == url@
                                            &&& h.len() > 0
                                            &&& 1 <= d.len() <= 5
                                            &&& are_digits(d)
                                            &&& decimal_value(d) == port
                                        };
                                    assert(d == digits@);
                                }
                            }
                        }
                        Err(invalid_input_io_error("invalid tcp address: bad port"))
                    },
                }
            },
        }
    } else if has_ipc_scheme(url) {
        let path = slice_subrange(url, 6, url.len());
        proof {
            assert(url@ =~= ipc_scheme() + path@);
            assert forall|host: Seq<u8>, port: u16| !is_tcp_url(url@, host, port) by {
                if is_tcp_url(url@, host, port) {
                    let digits = choose|digits: Seq<u8>|
                        #[trigger] tcp_address(host, digits) == url@;
                    assert(tcp_address(host, digits)[0] == 116);
                    assert(url@[0] == 105);
                }
            }
            assert forall|p: Seq<u8>| is_ipc_url(url@, p) implies p == path@ by {
                assert(p =~= (ipc_scheme() + p).subrange(6, url@.len() as int));
                assert(path@ =~= (ipc_scheme() + path@).subrange(6, url@.len() as int));
            }
        }
        if path.len() == 0 {
            Err(invalid_input_io_error("invalid ipc address: no path"))
        } else {
            Ok(Url::Ipc { path: slice_to_vec(path) })
        }
    } else {
        proof {
            assert forall|host: Seq<u8>, port: u16| !is_tcp_url(url@, host, port) by {
                if is_tcp_url(url@, host, port) {
                    let digits = choose|digits: Seq<u8>|
                        #[trigger] tcp_address(host, digits) == url@;
                    assert(tcp_address(host, digits).subrange(0, 6) =~= tcp_scheme());
                }
            }
            assert forall|path: Seq<u8>| !is_ipc_url(url@, path) by {
                if is_ipc_url(url@, path) {
                    assert((ipc_scheme() + path).subrange(0, 6) =~= ipc_scheme());
                }
            }
        }
        Err(invalid_input_io_error("unknown scheme"))
    }
}

} // verus!
