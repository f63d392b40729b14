//! The addresses of the sockets, and the files behind those that use inter-process transport.
use vstd::prelude::*;
use vstd::string::*;

use crate::text::{append_decimal, starts_with, str_eq, trim_prefixes};

verus! {

/// First port of the publishers.
pub const PUBLISHER_PORT: usize = 5000;

/// First port of the receiving dealers.
pub const DEALER_PORT: usize = 6000;

/// Port of the router.
pub const ROUTER_PORT: usize = 7000;

/// The characters of each of a sequence of strings.
pub open spec fn texts(strings: Seq<String>) -> Seq<Seq<char>> {
    strings.map_values(|s: String| s@)
}

/// The file of the socket number `id` of a kind.
pub open spec fn socket_file(prefix: Seq<char>, id: nat) -> Seq<char> {
    "/tmp/"@ + prefix + "_"@ + crate::text::decimal(id) + ".ipc"@
}

/// The file of the router's socket.
pub open spec fn router_file() -> Seq<char> {
    "/tmp/dealerrouter.ipc"@
}

/// An address: of a file for the transport `ipc`, of a local port for every other transport.
pub open spec fn endpoint(transport: Seq<char>, file: Seq<char>, port: nat) -> Seq<char> {
    if transport == "ipc"@ {
        "ipc://"@ + file
    } else {
        "tcp://127.0.0.1:"@ + crate::text::decimal(port)
    }
}

/// The address of publisher number `id`.
pub open spec fn publisher_endpoint(transport: Seq<char>, id: nat) -> Seq<char> {
    endpoint(transport, socket_file("pub"@, id), PUBLISHER_PORT as nat + id)
}

/// The address of the receiving dealer of pair number `id`.
pub open spec fn dealer_endpoint(transport: Seq<char>, id: nat) -> Seq<char> {
    endpoint(transport, socket_file("dealer"@, id), DEALER_PORT as nat + id)
}

/// The address of the router.
pub open spec fn router_endpoint(transport: Seq<char>) -> Seq<char> {
    endpoint(transport, router_file(), ROUTER_PORT as nat)
}

/// The file behind an address, if there is one.
pub open spec fn file_behind(address: Seq<char>) -> Option<Seq<char>> {
    if crate::text::has_prefix(address, "ipc://"@) {
        Some(crate::text::without_prefixes(address, "ipc://"@))
    } else {
        None
    }
}

/// The name of the transport that an address uses.
pub open spec fn transport_name(address: Seq<char>) -> Seq<char> {
    if crate::text::has_prefix(address, "ipc"@) {
        "IPC"@
    } else {
        "TCP"@
    }
}

/// The files that `n` sockets of a kind leave behind. The router has one socket, and no number.
pub open spec fn leftover_files(prefix: Seq<char>, n: nat) -> Seq<Seq<char>> {
    if n > 0 {
        Seq::new(n, |i: int| socket_file(prefix, i as nat))
    } else if prefix == "dealerrouter"@ {
        seq![router_file()]
    } else {
        Seq::empty()
    }
}

fn make_socket_file(prefix: &str, id: usize) -> (r: String)
    ensures
        r@ == socket_file(prefix@, id as nat),
{
    let mut r: String = "/tmp/".to_owned();
    r.append(prefix);
    r.append("_");
    append_decimal(&mut r, id as u64);
    r.append(".ipc");
    r
}

fn make_endpoint(transport: &str, file: &str, first_port: usize, id: usize) -> (r: String)
    requires
        transport@ != "ipc"@ ==> first_port + id <= usize::MAX,
    ensures
        r@ == endpoint(transport@, file@, first_port as nat + id as nat),
{
    if str_eq(transport, "ipc") {
        let mut r: String = "ipc://".to_owned();
        r.append(file);
        r
    } else {
        let mut r: String = "tcp://127.0.0.1:".to_owned();
        append_decimal(&mut r, (first_port + id) as u64);
        r
    }
}

/// Whether each of `count` sockets has an address over `transport`: a file, or a port of its own
/// from `first_port` on.
pub fn ports_suffice(transport: &str, first_port: usize, count: usize) -> (r: bool)
    ensures
        r == (transport@ != "ipc"@ ==> first_port + count <= usize::MAX + 1),
{
    str_eq(transport, "ipc") || count == 0 || count - 1 <= usize::MAX - first_port
}

/// The address that publisher number `id` binds.
pub fn publisher_address(transport: &str, id: usize) -> (r: String)
    requires
        transport@ != "ipc"@ ==> PUBLISHER_PORT + id <= usize::MAX,
    ensures
        r@ == publisher_endpoint(transport@, id as nat),
{
    let file: String = make_socket_file("pub", id);
    make_endpoint(transport, file.as_str(), PUBLISHER_PORT, id)
}

/// The address that the receiving dealer of pair number `id` binds.
pub fn dealer_address(transport: &str, id: usize) -> (r: String)
    requires
        transport@ != "ipc"@ ==> DEALER_PORT + id <= usize::MAX,
    ensures
        r@ == dealer_endpoint(transport@, id as nat),
{
    let file: String = make_socket_file("dealer", id);
    make_endpoint(transport, file.as_str(), DEALER_PORT, id)
}

/// The address that the router binds.
pub fn router_address(transport: &str) -> (r: String)
    ensures
        r@ == router_endpoint(transport@),
{
    make_endpoint(transport, "/tmp/dealerrouter.ipc", ROUTER_PORT, 0)
}

/// The file that is to be removed when a socket that was bound to `address` is closed, if any.
pub fn ipc_file(address: &str) -> (r: Option<String>)
    ensures
        r is Some <==> file_behind(address@) is Some,
        r is Some ==> r->0@ == file_behind(address@)->0,
{
    if starts_with(address, "ipc://") {
        Some(trim_prefixes(address, "ipc://"))
    } else {
        None
    }
}

/// The name of the transport that an address uses.
pub fn transport_label(address: &str) -> (r: &'static str)
    ensures
        r@ == transport_name(address@),
{
    if starts_with(address, "ipc") {
        "IPC"
    } else {
        "TCP"
    }
}

/// The name of the transport of the first of several addresses; that of TCP where there is none.
pub fn first_transport_label(addresses: &Vec<String>) -> (r: &'static str)
    ensures
        r@ == if addresses@.len() > 0 {
            transport_name(addresses@[0]@)
        } else {
            "TCP"@
        },
{
    if addresses.len() > 0 {
        transport_label(addresses[0].as_str())
    } else {
        "TCP"
    }
}

/// The files of the sockets of a kind, for removal before and after a run.
pub fn cleanup_ipc(prefix: &str, n: usize) -> (r: Vec<String>)
    ensures
        texts(r@) == leftover_files(prefix@, n as nat),
{
    let mut r: Vec<String> = Vec::new();
    if n > 0 {
        let mut i: usize = 0;
        while i < n
            invariant
                i <= n,
                r@.len() == i,
                forall|k: int| 0 <= k < i ==> (#[trigger] r@[k])@ == socket_file(prefix@, k as nat),
            decreases n - i,
        {
            r.push(make_socket_file(prefix, i));
            i = i + 1;
        }
    } else if str_eq(prefix, "dealerrouter") {
        r.push("/tmp/dealerrouter.ipc".to_owned());
    }
    assert(texts(r@) =~= leftover_files(prefix@, n as nat));
    r
}

/// Different numbers of one kind have different files.
pub proof fn socket_files_differ(prefix: Seq<char>, a: nat, b: nat)
    requires
        socket_file(prefix, a) == socket_file(prefix, b),
    ensures
        a == b,
{
    let lead = "/tmp/"@ + prefix + "_"@;
    let x = crate::text::decimal(a);
    let y = crate::text::decimal(b);
    let end = ".ipc"@;
    assert((lead + x + end).len() == (lead + y + end).len());
    assert(x =~= (lead + x + end).subrange(lead.len() as int, (lead.len() + x.len()) as int));
    assert(y =~= (lead + y + end).subrange(lead.len() as int, (lead.len() + y.len()) as int));
    crate::text::lemma_decimal_injective(a, b);
}

proof fn lemma_concat_cancels(lead: Seq<char>, a: Seq<char>, b: Seq<char>)
    requires
        lead + a == lead + b,
    ensures
        a == b,
{
    assert(a =~= (lead + a).skip(lead.len() as int));
    assert(b =~= (lead + b).skip(lead.len() as int));
}

/// No two publishers of a run share an address.
pub proof fn publisher_addresses_differ(transport: Seq<char>, a: nat, b: nat)
    requires
        publisher_endpoint(transport, a) == publisher_endpoint(transport, b),
    ensures
        a == b,
{
    if transport == "ipc"@ {
        lemma_concat_cancels("ipc://"@, socket_file("pub"@, a), socket_file("pub"@, b));
        socket_files_differ("pub"@, a, b);
    } else {
        let x = PUBLISHER_PORT as nat + a;
        let y = PUBLISHER_PORT as nat + b;
        lemma_concat_cancels(
            "tcp://127.0.0.1:"@,
            crate::text::decimal(x),
            crate::text::decimal(y),
        );
        crate::text::lemma_decimal_injective(x, y);
    }
}

/// No two dealer pairs of a run share an address.
pub proof fn dealer_addresses_differ(transport: Seq<char>, a: nat, b: nat)
    requires
        dealer_endpoint(transport, a) == dealer_endpoint(transport, b),
    ensures
        a == b,
{
    if transport == "ipc"@ {
        lemma_concat_cancels("ipc://"@, socket_file("dealer"@, a), socket_file("dealer"@, b));
        socket_files_differ("dealer"@, a, b);
    } else {
        let x = DEALER_PORT as nat + a;
        let y = DEALER_PORT as nat + b;
        lemma_concat_cancels(
            "tcp://127.0.0.1:"@,
            crate::text::decimal(x),
            crate::text::decimal(y),
        );
        crate::text::lemma_decimal_injective(x, y);
    }
}

/// The file behind the address of a file is that file, unless the file's own name looks like an
/// address; the transport of such an address is inter-process.
pub proof fn address_of_file_leads_back(file: Seq<char>, port: nat)
    requires
        !crate::text::has_prefix(file, "ipc://"@),
    ensures
        file_behind(endpoint("ipc"@, file, port)) == Some(file),
        transport_name(endpoint("ipc"@, file, port)) == "IPC"@,
{
    reveal_strlit("ipc");
    reveal_strlit("ipc://");
    let address = "ipc://"@ + file;
    assert(address.take(6) =~= "ipc://"@);
    assert(address.skip(6) =~= file);
    assert(address.take(3) =~= "ipc"@);
    reveal_with_fuel(crate::text::without_prefixes, 2);
}

/// An address of any transport but `ipc` has no file behind it, and is labelled TCP.
pub proof fn port_address_has_no_file(transport: Seq<char>, file: Seq<char>, port: nat)
    requires
        transport != "ipc"@,
    ensures
        file_behind(endpoint(transport, file, port)) is None,
        transport_name(endpoint(transport, file, port)) == "TCP"@,
{
    reveal_strlit("ipc");
    reveal_strlit("ipc://");
    reveal_strlit("tcp://127.0.0.1:");
    let address = endpoint(transport, file, port);
    assert(address[0] == 't');
    if crate::text::has_prefix(address, "ipc://"@) {
        assert(address.take(6)[0] == 'i');
    }
    if crate::text::has_prefix(address, "ipc"@) {
        assert(address.take(3)[0] == 'i');
    }
}

proof fn lemma_tmp_is_no_address(file: Seq<char>)
    requires
        crate::text::has_prefix(file, "/tmp/"@),
    ensures
        !crate::text::has_prefix(file, "ipc://"@),
{
    reveal_strlit("ipc://");
    reveal_strlit("/tmp/");
    assert(file.take(5)[0] == '/');
    if crate::text::has_prefix(file, "ipc://"@) {
        assert(file.take(6)[0] == 'i');
    }
}

/// Every file that a publisher's address names is among those that a cleanup after the
/// publishers removes.
pub proof fn publisher_files_are_cleaned_up(id: nat, num_senders: nat)
    requires
        id < num_senders,
    ensures
        file_behind(publisher_endpoint("ipc"@, id)) is Some,
        leftover_files("pub"@, num_senders).contains(
            file_behind(publisher_endpoint("ipc"@, id))->0,
        ),
{
    let file = socket_file("pub"@, id);
    assert(file.take("/tmp/"@.len() as int) =~= "/tmp/"@);
    lemma_tmp_is_no_address(file);
    address_of_file_leads_back(file, PUBLISHER_PORT as nat + id);
    assert(leftover_files("pub"@, num_senders)[id as int] == file);
}

/// Every file that the address of a dealer pair names is among those that a cleanup after the
/// pairs removes.
pub proof fn dealer_files_are_cleaned_up(id: nat, num_pairs: nat)
    requires
        id < num_pairs,
    ensures
        file_behind(dealer_endpoint("ipc"@, id)) is Some,
        leftover_files("dealer"@, num_pairs).contains(file_behind(dealer_endpoint("ipc"@, id))->0),
{
    let file = socket_file("dealer"@, id);
    assert(file.take("/tmp/"@.len() as int) =~= "/tmp/"@);
    lemma_tmp_is_no_address(file);
    address_of_file_leads_back(file, DEALER_PORT as nat + id);
    assert(leftover_files("dealer"@, num_pairs)[id as int] == file);
}

/// The file that the router's address names is the one that a cleanup after the router removes.
pub proof fn router_file_is_cleaned_up()
    ensures
        file_behind(router_endpoint("ipc"@)) is Some,
        leftover_files("dealerrouter"@, 0) == seq![file_behind(router_endpoint("ipc"@))->0],
{
    reveal_strlit("/tmp/");
    reveal_strlit("/tmp/dealerrouter.ipc");
    assert(router_file().take(5) =~= "/tmp/"@);
    lemma_tmp_is_no_address(router_file());
    address_of_file_leads_back(router_file(), ROUTER_PORT as nat);
}

/// Over `ipc` a publisher is found at a file that has its number in its name, over every other
/// transport at a local port: the first publisher at port 5000, and each further one a port higher.
pub proof fn publishers_are_found_by_number(transport: Seq<char>, id: nat)
    ensures
        publisher_endpoint("ipc"@, id) == "ipc://"@ + ("/tmp/"@ + "pub"@ + "_"@
            + crate::text::decimal(id) + ".ipc"@),
        transport != "ipc"@ ==> publisher_endpoint(transport, id) == "tcp://127.0.0.1:"@
            + crate::text::decimal(5000 + id),
{
}

/// Over `ipc` a pair of dealers meets at a file that has its number in its name, over every other
/// transport at a local port: the first pair at port 6000, and each further one a port higher.
pub proof fn pairs_are_found_by_number(transport: Seq<char>, id: nat)
    ensures
        dealer_endpoint("ipc"@, id) == "ipc://"@ + ("/tmp/"@ + "dealer"@ + "_"@
            + crate::text::decimal(id) + ".ipc"@),
        transport != "ipc"@ ==> dealer_endpoint(transport, id) == "tcp://127.0.0.1:"@
            + crate::text::decimal(6000 + id),
{
}

/// The router is found at one file over `ipc`, and at local port 7000 over every other transport.
pub proof fn router_is_found(transport: Seq<char>)
    ensures
        router_endpoint("ipc"@) == "ipc://"@ + "/tmp/dealerrouter.ipc"@,
        transport != "ipc"@ ==> router_endpoint(transport) == "tcp://127.0.0.1:"@
            + crate::text::decimal(7000),
{
}

/// There is a file behind an address exactly where the address starts with `ipc://`, and it is
/// named by what follows; an address is one over `IPC` exactly where it starts with `ipc`, and one
/// over `TCP` otherwise.
pub proof fn addresses_tell_their_file(address: Seq<char>, rest: Seq<char>)
    ensures
        !crate::text::has_prefix(rest, "ipc://"@) ==> file_behind("ipc://"@ + rest) == Some(rest),
        file_behind("ipc://"@ + rest) == Some(crate::text::without_prefixes(rest, "ipc://"@)),
        !crate::text::has_prefix(address, "ipc://"@) ==> file_behind(address) is None,
        transport_name("ipc"@ + rest) == "IPC"@,
        !crate::text::has_prefix(address, "ipc"@) ==> transport_name(address) == "TCP"@,
{
    crate::text::prefix_is_a_start(address, "ipc://"@, rest);
    crate::text::prefix_is_a_start(address, "ipc"@, rest);
    crate::text::trimming_takes_prefixes_off(rest, "ipc://"@);
}

/// A cleanup after `n` sockets of a kind names one file for each of them, in the order of their
/// numbers, and nothing else; a cleanup after the router, which has no number, names its only file.
pub proof fn cleanup_names_each_file_once(prefix: Seq<char>, n: nat, i: int)
    requires
        n > 0,
        0 <= i < n,
    ensures
        leftover_files(prefix, n).len() == n,
        leftover_files(prefix, n)[i] == "/tmp/"@ + prefix + "_"@ + crate::text::decimal(i as nat)
            + ".ipc"@,
        leftover_files("dealerrouter"@, 0) == seq!["/tmp/dealerrouter.ipc"@],
        prefix != "dealerrouter"@ ==> leftover_files(prefix, 0).len() == 0,
{
}

/// The characters of strings are those of each of them.
pub proof fn texts_are_one_each(strings: Seq<String>, i: int)
    requires
        0 <= i < strings.len(),
    ensures
        texts(strings).len() == strings.len(),
        texts(strings)[i] == strings[i]@,
{
}

} // verus!
