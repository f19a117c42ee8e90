use vstd::prelude::*;

verus! {

/// An IP address: four octets, or eight 16-bit segments.
#[derive(Clone, Copy, Debug, PartialEq, Eq)]
pub enum IpAddress {
    V4([u8; 4]),
    V6([u16; 8]),
}

/// A socket address, as the standard library's `SocketAddr` holds it.
#[derive(Clone, Copy, Debug, PartialEq, Eq)]
#[allow(inconsistent_fields)]
pub enum SocketAddress {
    V4 { ip: [u8; 4], port: u16 },
    V6 { ip: [u16; 8], port: u16, flowinfo: u32, scope_id: u32 },
}

impl SocketAddress {
    /// The address of `ip` at `port`, with no flow label and no scope.
    pub open spec fn spec_new(ip: IpAddress, port: u16) -> SocketAddress {
        match ip {
            IpAddress::V4(o) => SocketAddress::V4 { ip: o, port },
            IpAddress::V6(s) => SocketAddress::V6 { ip: s, port, flowinfo: 0, scope_id: 0 },
        }
    }

    /// The IP part of the address.
    pub open spec fn spec_ip(self) -> IpAddress {
        match self {
            SocketAddress::V4 { ip, .. } => IpAddress::V4(ip),
            SocketAddress::V6 { ip, .. } => IpAddress::V6(ip),
        }
    }

    /// The port of the address.
    pub open spec fn spec_port(self) -> u16 {
        match self {
            SocketAddress::V4 { port, .. } => port,
            SocketAddress::V6 { port, .. } => port,
        }
    }

    /// The address of `ip` at `port`, with no flow label and no scope.
    pub fn new(ip: IpAddress, port: u16) -> (res: SocketAddress)
        ensures
            res == Self::spec_new(ip, port),
    {
        match ip {
            IpAddress::V4(o) => SocketAddress::V4 { ip: o, port },
            IpAddress::V6(s) => SocketAddress::V6 { ip: s, port, flowinfo: 0, scope_id: 0 },
        }
    }

    /// The IP part of the address.
    pub fn ip(&self) -> (res: IpAddress)
        ensures
            res == self.spec_ip(),
    {
        match self {
            SocketAddress::V4 { ip, .. } => IpAddress::V4(*ip),
            SocketAddress::V6 { ip, .. } => IpAddress::V6(*ip),
        }
    }

    /// The port of the address.
    pub fn port(&self) -> (res: u16)
        ensures
            res == self.spec_port(),
    {
        match self {
            SocketAddress::V4 { port, .. } => *port,
            SocketAddress::V6 { port, .. } => *port,
        }
    }
}

/// A socket address made from an IP and a port holds that IP and that port,
/// with no flow label and no scope.
pub proof fn new_address_keeps_ip_and_port(ip: IpAddress, port: u16)
    ensures
        SocketAddress::spec_new(ip, port).spec_ip() == ip,
        SocketAddress::spec_new(ip, port).spec_port() == port,
        SocketAddress::spec_new(ip, port) matches SocketAddress::V6 { flowinfo, scope_id, .. } ==> flowinfo == 0
            && scope_id == 0,
{
}

/// `c` is an ASCII decimal digit.
pub open spec fn is_digit(c: char) -> bool {
    '0' <= c <= '9'
}

/// The value of a decimal digit.
pub open spec fn digit_value(c: char) -> int {
    c as int - '0' as int
}

/// Every character of `s` is a decimal digit.
pub open spec fn all_digits(s: Seq<char>) -> bool {
    forall|i: int| 0 <= i < s.len() ==> is_digit(#[trigger] s[i])
}

/// The number that a string of decimal digits writes.
pub open spec fn decimal_value(s: Seq<char>) -> int
    decreases s.len(),
{
    if s.len() == 0 {
        0
    } else {
        decimal_value(s.drop_last()) * 10 + digit_value(s.last())
    }
}

/// The digits of an unsigned number: one leading `+` is allowed.
pub open spec fn unsigned_digits(s: Seq<char>) -> Seq<char> {
    if s.len() > 0 && s[0] == '+' {
        s.drop_first()
    } else {
        s
    }
}

/// The port that a text writes, as the standard library parses a `u16`:
/// an optional `+`, then one or more decimal digits, at most 65535.
pub open spec fn port_value(s: Seq<char>) -> Option<u16> {
    let d = unsigned_digits(s);
    if d.len() > 0 && all_digits(d) && decimal_value(d) <= 65535 {
        Some(decimal_value(d) as u16)
    } else {
        None
    }
}

proof fn lemma_decimal_value_nonneg(s: Seq<char>)
    requires
        all_digits(s),
    ensures
        decimal_value(s) >= 0,
    decreases s.len(),
{
    if s.len() > 0 {
        lemma_decimal_value_nonneg(s.drop_last());
    }
}

/// Over digits, a longer prefix never writes a smaller number.
proof fn lemma_decimal_value_prefix(s: Seq<char>, k: int)
    requires
        all_digits(s),
        0 <= k <= s.len(),
    ensures
        decimal_value(s.take(k)) <= decimal_value(s),
    decreases s.len() - k,
{
    if k < s.len() {
        lemma_decimal_value_prefix(s, k + 1);
        let t = s.take(k + 1);
        assert(t.drop_last() =~= s.take(k));
        lemma_decimal_value_nonneg(s.take(k));
    } else {
        assert(s.take(k) =~= s);
    }
}

/// Reads a port number the way `str::parse::<u16>` does.
pub fn parse_port(text: &str) -> (res: Option<u16>)
    ensures
        res == port_value(text@),
{
    let len = text.unicode_len();
    let ghost s = text@;
    let start: usize = if len > 0 && text.get_char(0) == '+' { 1 } else { 0 };
    let ghost d = unsigned_digits(s);
    assert(d =~= s.skip(start as int));
    if start >= len {
        return None;
    }
    let mut acc: u32 = 0;
    let mut i: usize = start;
    while i < len
        invariant
            start <= i <= len,
            len == s.len(),
            s == text@,
            d =~= s.skip(start as int),
            d == unsigned_digits(text@),
            all_digits(d.take(i - start)),
            acc == decimal_value(d.take(i - start)),
            acc <= 65535,
        decreases len - i,
    {
        let c = text.get_char(i);
        let ghost k = (i - start) as int;
        assert(d[k] == c);
        if !('0' <= c && c <= '9') {
            assert(!all_digits(d));
            return None;
        }
        assert(d.take(k + 1).drop_last() =~= d.take(k));
        let next: u32 = acc * 10 + (c as u32 - '0' as u32);
        assert(all_digits(d.take(k + 1)));
        if next > 65535 {
            proof {
                if all_digits(d) {
                    lemma_decimal_value_prefix(d, k + 1);
                }
            }
            return None;
        }
        acc = next;
        i = i + 1;
    }
    assert(d.take(len - start) =~= d);
    Some(acc as u16)
}

/// The character of a decimal digit.
pub open spec fn digit_char(d: nat) -> char {
    if d == 0 { '0' } else if d == 1 { '1' } else if d == 2 { '2' } else if d == 3 { '3' }
    else if d == 4 { '4' } else if d == 5 { '5' } else if d == 6 { '6' } else if d == 7 { '7' }
    else if d == 8 { '8' } else { '9' }
}

/// A number written in decimal, without leading zeros (as `to_string` writes it).
pub open spec fn decimal_text(n: nat) -> Seq<char>
    decreases n,
{
    if n < 10 {
        seq![digit_char(n)]
    } else {
        decimal_text(n / 10).push(digit_char(n % 10))
    }
}

proof fn lemma_decimal_text(n: nat)
    ensures
        decimal_text(n).len() > 0,
        all_digits(decimal_text(n)),
        decimal_value(decimal_text(n)) == n,
    decreases n,
{
    let d = n % 10;
    assert(0 <= d < 10);
    assert(digit_value(digit_char(d)) == d);
    if n < 10 {
        assert(d == n);
        let t = decimal_text(n);
        assert(t.drop_last() =~= Seq::<char>::empty());
        assert(decimal_value(Seq::<char>::empty()) == 0);
        assert(t.last() == digit_char(n));
        assert(decimal_value(t) == decimal_value(t.drop_last()) * 10 + digit_value(t.last()));
    } else {
        lemma_decimal_text(n / 10);
        let t = decimal_text(n);
        assert(t.drop_last() =~= decimal_text(n / 10));
        assert(n == (n / 10) * 10 + d) by (nonlinear_arith)
            requires d == n % 10;
        assert(t.last() == digit_char(d));
        assert(decimal_value(t) == decimal_value(t.drop_last()) * 10 + digit_value(t.last()));
        assert forall|i: int| 0 <= i < t.len() implies is_digit(#[trigger] t[i]) by {
            if i < t.len() - 1 {
                assert(t[i] == decimal_text(n / 10)[i]);
            }
        }
    }
}

/// A port written in decimal reads back as the same port.
pub proof fn port_text_round_trip(port: u16)
    ensures
        port_value(decimal_text(port as nat)) == Some(port),
{
    lemma_decimal_text(port as nat);
    let t = decimal_text(port as nat);
    assert(is_digit(t[0]));
    assert(unsigned_digits(t) == t);
}

/// A port may carry one leading `+`; every text that reads as a port is
/// that `+` (or not) followed by one or more digits; a number above 65535 is
/// not a port.
pub proof fn port_texts(port: u16, s: Seq<char>)
    ensures
        port_value(seq!['+'] + decimal_text(port as nat)) == Some(port),
        port_value(s) is Some && s.len() > 0 && s[0] == '+' ==> s.len() > 1 && (forall|i: int|
            1 <= i < s.len() ==> '0' <= #[trigger] s[i] <= '9'),
        port_value(s) is Some && !(s.len() > 0 && s[0] == '+') ==> s.len() > 0 && (forall|i: int|
            0 <= i < s.len() ==> '0' <= #[trigger] s[i] <= '9'),
        all_digits(s) && decimal_value(s) > 65535 ==> port_value(s) is None,
        s.len() > 0 && !('0' <= s[0] <= '9') && s[0] != '+' ==> port_value(s) is None,
{
    lemma_decimal_text(port as nat);
    let t = decimal_text(port as nat);
    assert((seq!['+'] + t).drop_first() =~= t);
    assert((seq!['+'] + t)[0] == '+');
    if port_value(s) is Some && s.len() > 0 && s[0] == '+' {
        let d = s.drop_first();
        assert forall|i: int| 1 <= i < s.len() implies '0' <= #[trigger] s[i] <= '9' by {
            assert(s[i] == d[i - 1]);
            assert(is_digit(d[i - 1]));
        }
    }
    if s.len() > 0 && !('0' <= s[0] <= '9') && s[0] != '+' {
        assert(!is_digit(unsigned_digits(s)[0]));
    }
}

/// For a text with a `:`, the host and port parts are what stands before and
/// after its last `:`.
pub proof fn host_and_port_parts(s: Seq<char>)
    requires
        s.contains(':'),
    ensures
        host_part(s) + seq![':'] + port_part(s) == s,
        !port_part(s).contains(':'),
        0 <= last_colon_from_end(s) < s.len(),
    decreases s.len(),
{
    if s.last() == ':' {
        assert(last_colon_from_end(s) == 0);
        assert(host_part(s) + seq![':'] + port_part(s) =~= s);
        assert(port_part(s) =~= Seq::<char>::empty());
    } else {
        let t = s.drop_last();
        let j = choose|j: int| 0 <= j < s.len() && s[j] == ':';
        assert(j < s.len() - 1);
        assert(t[j] == ':');
        host_and_port_parts(t);
        let k = last_colon_from_end(t);
        assert(last_colon_from_end(s) == k + 1);
        let n = s.len() as int;
        assert(t.len() == n - 1);
        assert(host_part(s) == s.take(n - 2 - k));
        assert(host_part(t) == t.take(n - 2 - k));
        assert(port_part(s) == s.skip(n - 1 - k));
        assert(port_part(t) == t.skip(n - 1 - k));
        assert(0 <= n - 2 - k);
        assert forall|i: int| 0 <= i < n - 2 - k implies #[trigger] host_part(s)[i] == host_part(t)[i] by {
            assert(s[i] == t[i]);
        }
        assert(host_part(s) =~= host_part(t));
        assert(port_part(s) =~= port_part(t).push(s.last()));
        assert(s =~= t.push(s.last()));
        assert((host_part(t) + seq![':'] + port_part(t)).push(s.last()) =~= host_part(t) + seq![':'] + port_part(
            t,
        ).push(s.last()));
        assert(host_part(s) + seq![':'] + port_part(s) =~= s);
        assert forall|c: char| port_part(s).contains(c) implies c != ':' by {
            let i = choose|i: int| 0 <= i < port_part(s).len() && port_part(s)[i] == c;
            if i < port_part(t).len() {
                assert(port_part(t)[i] == c);
                assert(port_part(t).contains(c));
            }
        }
    }
}

/// Splits `text` at its last `:`, as `str::rsplit_once(':')` does.
pub fn split_host_port(text: &str) -> (res: Option<(&str, &str)>)
    ensures
        res is None <==> !text@.contains(':'),
        res matches Some((host, port)) ==> {
            &&& host@ + seq![':'] + port@ == text@
            &&& !port@.contains(':')
        },
{
    let len = text.unicode_len();
    let mut i: usize = len;
    while i > 0
        invariant
            i <= len,
            len == text@.len(),
            forall|j: int| i <= j < len ==> text@[j] != ':',
        decreases i,
    {
        if text.get_char(i - 1) == ':' {
            let host = text.substring_char(0, i - 1);
            let port = text.substring_char(i, len);
            assert(host@ + seq![':'] + port@ =~= text@);
            assert forall|j: int| 0 <= j < port@.len() implies port@[j] != ':' by {
                assert(port@[j] == text@[i + j]);
            }
            return Some((host, port));
        }
        i = i - 1;
    }
    assert forall|j: int| 0 <= j < text@.len() implies text@[j] != ':' by {}
    None
}

/// Why an address could not be turned into a socket address.
#[derive(Clone, Debug)]
pub enum AddressError {
    /// Not a socket address, and no `:` that a port could follow.
    MissingPort,
    /// The text after the last `:` is not a port number.
    InvalidPort,
    /// The listening address is not a socket address.
    InvalidListenAddress,
    /// The resolver failed for the host.
    ResolutionFailed { host: String, reason: String },
    /// The resolver found no address for the host.
    NoAddressFound,
}

/// What to do with an address text: it is a socket address already, or
/// `host` must be looked up (the resolver is asked for exactly this text)
/// and `port` put to the first address found.
pub enum AddressPlan {
    Ready(SocketAddress),
    Lookup { host: String, port: u16 },
}

/// `res` is the right first step for the address text `text`, where reading
/// it whole as a socket address gave `direct`: that address if there is one;
/// else a missing port where the text has no `:`; else an invalid port where
/// what follows the last `:` is not a port; else a lookup of what precedes
/// it, at that port.
pub open spec fn is_plan_for(text: Seq<char>, direct: Option<SocketAddress>, res: Result<AddressPlan, AddressError>) -> bool {
    match direct {
        Some(a) => res matches Ok(AddressPlan::Ready(r)) && r == a,
        None => if !text.contains(':') {
            res matches Err(AddressError::MissingPort)
        } else {
            match port_value(port_part(text)) {
                None => res matches Err(AddressError::InvalidPort),
                Some(p) => res matches Ok(AddressPlan::Lookup { host: h, port: q }) && h@ == host_part(text) && q == p,
            }
        },
    }
}

/// The socket address that the standard library reads from a text
/// (`a.b.c.d:port`, `[v6]:port` or `[v6%scope]:port`), if any.
pub uninterp spec fn parsed_socket_addr(text: Seq<char>) -> Option<SocketAddress>;

/// `<core::net::SocketAddr as FromStr>::from_str`, converted to a
/// `SocketAddress` field by field. Its grammar (IPv4 and IPv6 literals) is
/// not written out here: the result is named, as a function of the text.
#[verifier::external_body]
fn parse_socket_addr(text: &str) -> (res: Option<SocketAddress>)
    ensures
        res == parsed_socket_addr(text@),
{
    match text.parse::<core::net::SocketAddr>() {
        Ok(core::net::SocketAddr::V4(a)) => Some(SocketAddress::V4 { ip: a.ip().octets(), port: a.port() }),
        Ok(core::net::SocketAddr::V6(a)) => Some(SocketAddress::V6 {
            ip: a.ip().segments(),
            port: a.port(),
            flowinfo: a.flowinfo(),
            scope_id: a.scope_id(),
        }),
        Err(_) => None,
    }
}

/// The address to listen on: the text must be a socket address.
pub fn listen_address(text: &str) -> (res: Result<SocketAddress, AddressError>)
    ensures
        res == match parsed_socket_addr(text@) {
            Some(a) => Ok::<SocketAddress, AddressError>(a),
            None => Err::<SocketAddress, AddressError>(AddressError::InvalidListenAddress),
        },
{
    match parse_socket_addr(text) {
        Some(a) => Ok(a),
        None => Err(AddressError::InvalidListenAddress),
    }
}

/// The IP address that the standard library reads from a text (an IPv4
/// dotted quad or an IPv6 literal), if any.
pub uninterp spec fn parsed_ip_addr(text: Seq<char>) -> Option<IpAddress>;

/// `<core::net::IpAddr as FromStr>::from_str`, converted to an `IpAddress`
/// variant by variant. Its grammar is not written out here: the result is
/// named, as a function of the text.
#[verifier::external_body]
fn parse_ip_addr(text: &str) -> (res: Option<IpAddress>)
    ensures
        res == parsed_ip_addr(text@),
{
    match text.parse::<core::net::IpAddr>() {
        Ok(core::net::IpAddr::V4(a)) => Some(IpAddress::V4(a.octets())),
        Ok(core::net::IpAddr::V6(a)) => Some(IpAddress::V6(a.segments())),
        Err(_) => None,
    }
}

/// The interface the client's connections go out on: the configured one
/// where it is given and reads as an IP address, else the current one.
pub fn choose_interface(configured: Option<&str>, current: IpAddress) -> (res: IpAddress)
    ensures
        res == match configured {
            Some(text) => match parsed_ip_addr(text@) {
                Some(ip) => ip,
                None => current,
            },
            None => current,
        },
{
    match configured {
        Some(text) => match parse_ip_addr(text) {
            Some(ip) => ip,
            None => current,
        },
        None => current,
    }
}

/// The first step of resolving `addr_str`: where the whole text is a socket
/// address (as the standard library reads one), that is the answer;
/// otherwise the text must be `host:port`, split at the last `:`, with a
/// valid port, and the host is to be looked up.
pub fn get_socket_addr(addr_str: &str) -> (res: Result<AddressPlan, AddressError>)
    ensures
        is_plan_for(addr_str@, parsed_socket_addr(addr_str@), res),
{
    let direct = parse_socket_addr(addr_str);
    plan_socket_addr(addr_str, direct)
}

/// The first step of resolving `addr_str`, given `direct`, what reading the
/// whole text as a socket address gave: where it gave an address, that is
/// the answer. Otherwise the text must be `host:port`, split at the last
/// `:`, with a valid port.
pub fn plan_socket_addr(addr_str: &str, direct: Option<SocketAddress>) -> (res: Result<AddressPlan, AddressError>)
    ensures
        is_plan_for(addr_str@, direct, res),
{
    if let Some(a) = direct {
        return Ok(AddressPlan::Ready(a));
    }
    let (host, port_text) = match split_host_port(addr_str) {
        Some(parts) => parts,
        None => {
            return Err(AddressError::MissingPort);
        },
    };
    proof {
        lemma_last_colon_split(addr_str@, host@, port_text@);
    }
    let port = match parse_port(port_text) {
        Some(p) => p,
        None => {
            return Err(AddressError::InvalidPort);
        },
    };
    Ok(AddressPlan::Lookup { host: host.to_owned(), port })
}

/// What stands before the last `:` of `s`.
pub open spec fn host_part(s: Seq<char>) -> Seq<char> {
    s.take(s.len() - 1 - last_colon_from_end(s))
}

/// What stands after the last `:` of `s`.
pub open spec fn port_part(s: Seq<char>) -> Seq<char> {
    s.skip(s.len() - last_colon_from_end(s))
}

/// How many characters stand after the last `:` of `s`.
pub open spec fn last_colon_from_end(s: Seq<char>) -> int
    decreases s.len(),
{
    if s.len() == 0 {
        0
    } else if s.last() == ':' {
        0
    } else {
        last_colon_from_end(s.drop_last()) + 1
    }
}

proof fn lemma_last_colon_split(s: Seq<char>, host: Seq<char>, port: Seq<char>)
    requires
        host + seq![':'] + port == s,
        !port.contains(':'),
    ensures
        last_colon_from_end(s) == port.len(),
        s.take(s.len() - 1 - port.len()) == host,
        s.skip(s.len() - port.len()) == port,
    decreases port.len(),
{
    if port.len() == 0 {
        assert(s.last() == ':');
    } else {
        assert(port.contains(port.last()) ==> port.last() != ':');
        assert(port.contains(port.last()));
        assert(s.last() == port.last());
        assert(host + seq![':'] + port.drop_last() =~= s.drop_last());
        assert forall|c: char| port.drop_last().contains(c) implies port.contains(c) by {
            let j = choose|j: int| 0 <= j < port.drop_last().len() && port.drop_last()[j] == c;
            assert(port[j] == c);
        }
        lemma_last_colon_split(s.drop_last(), host, port.drop_last());
    }
    assert(s.take(s.len() - 1 - port.len()) =~= host);
    assert(s.skip(s.len() - port.len()) =~= port);
}

/// The last step of resolving an address: `lookup` is what the resolver
/// answered for the host, an error text or the first address it found. The
/// answer is that address at the port of the text.
pub fn finish_lookup(host: String, port: u16, lookup: Result<Option<IpAddress>, String>) -> (res: Result<SocketAddress, AddressError>)
    ensures
        lookup matches Err(reason) ==> res == Err::<SocketAddress, AddressError>(
            AddressError::ResolutionFailed { host, reason },
        ),
        lookup matches Ok(None) ==> res matches Err(AddressError::NoAddressFound),
        lookup matches Ok(Some(ip)) ==> res == Ok::<SocketAddress, AddressError>(SocketAddress::spec_new(ip, port)),
{
    match lookup {
        Err(reason) => Err(AddressError::ResolutionFailed { host, reason }),
        Ok(None) => Err(AddressError::NoAddressFound),
        Ok(Some(ip)) => Ok(SocketAddress::new(ip, port)),
    }
}

} // verus!
