//! What is settled before a conversation begins: the user's name and role, and
//! the addresses.
use vstd::prelude::*;

use crate::text::{decimal, digits, lower, lowered, same_text, trimmed};

verus! {

/// The TCP port on which a host listens.
pub const PORT: u16 = 7777;

/// What a user can be.
#[derive(PartialEq, Eq, Clone, Copy, Structural)]
pub enum Role {
    Host,
    Join,
}

/// An address with the port behind it.
pub open spec fn with_port(ip: Seq<char>) -> Seq<char> {
    ip + ":"@ + digits(PORT as nat)
}

/// The role that a word in lower case stands for.
pub open spec fn role_of(word: Seq<char>) -> Option<Role> {
    if word == "1"@ || word == "host"@ {
        Some(Role::Host)
    } else if word == "2"@ || word == "join"@ {
        Some(Role::Join)
    } else {
        None
    }
}

/// An address with the port behind it.
fn add_port(ip: &str) -> (res: String)
    ensures
        res@ == with_port(ip@),
{
    let mut res = ip.to_owned();
    res.append(":");
    res.append(decimal(PORT as usize).as_str());
    res
}

/// The address on which a host listens.
pub fn bind_address() -> (res: String)
    ensures
        res@ == with_port("0.0.0.0"@),
{
    add_port("0.0.0.0")
}

/// The address of the host whose IP address was entered; `None`, where nothing
/// was.
pub fn host_address(entered: &str) -> (res: Option<String>)
    ensures
        res is None <==> trimmed(entered@).len() == 0,
        res matches Some(address) ==> address@ == with_port(trimmed(entered@)),
{
    let ip = entered.trim();
    if ip.is_empty() {
        None
    } else {
        Some(add_port(ip))
    }
}

/// The name that was entered; `None`, where nothing was.
pub fn user_name(entered: &str) -> (res: Option<String>)
    ensures
        res is None <==> trimmed(entered@).len() == 0,
        res matches Some(name) ==> name@ == trimmed(entered@),
{
    let name = entered.trim();
    if name.is_empty() {
        None
    } else {
        Some(name.to_owned())
    }
}

/// The role that a word in lower case stands for.
pub fn choose_role(word: &str) -> (res: Option<Role>)
    ensures
        res == role_of(word@),
{
    if same_text(word, "1") || same_text(word, "host") {
        Some(Role::Host)
    } else if same_text(word, "2") || same_text(word, "join") {
        Some(Role::Join)
    } else {
        None
    }
}

/// The role that was entered, in letters of either case.
pub fn read_role(entered: &str) -> (res: Option<Role>)
    ensures
        res == role_of(lowered(trimmed(entered@))),
{
    let word = lower(entered.trim());
    choose_role(word.as_str())
}

/// An address is the IP address as it was entered with `:7777` behind it.
pub proof fn address_with_port(ip: Seq<char>)
    ensures
        with_port(ip) == ip + ":7777"@,
{
    reveal_strlit(":");
    reveal_strlit(":7777");
    reveal_with_fuel(digits, 5);
    assert(digits(7777) =~= seq!['7', '7', '7', '7']);
    assert(with_port(ip) =~= ip + ":7777"@);
}

/// Two words stand for each role, and no other word for any.
pub proof fn words_for_roles(word: Seq<char>)
    ensures
        role_of(word) == Some(Role::Host) <==> word == "1"@ || word == "host"@,
        role_of(word) == Some(Role::Join) <==> word == "2"@ || word == "join"@,
        role_of(word) is Some ==> role_of(word) == Some(Role::Host) || role_of(word) == Some(
            Role::Join,
        ),
{
    reveal_strlit("1");
    reveal_strlit("2");
    reveal_strlit("host");
    reveal_strlit("join");
    assert("1"@[0] == '1' && "2"@[0] == '2');
    assert("host"@[0] == 'h' && "join"@[0] == 'j');
}

} // verus!
