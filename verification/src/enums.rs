//! Enum modelling: addresses, messages, and coins, with exact contracts on
//! the matching functions.

use vstd::prelude::*;

verus! {

/// The two kinds of IP address.
#[derive(Clone, Copy, Debug, PartialEq, Eq, Structural)]
pub enum IpAddrKind {
    V4,
    V6,
}

/// An address as a kind paired with its text.
pub struct IpAddrStruct {
    pub kind: IpAddrKind,
    pub addr: String,
}

/// An address carrying its text in the variant itself.
pub enum IpAddrString {
    V4(String),
    V6(String),
}

/// An address carrying the four octets for version four.
pub enum IpAddrBetter {
    V4(u8, u8, u8, u8),
    V6(String),
}

/// A version-four address body.
pub struct Ipv4Addr {}

/// A version-six address body.
pub struct Ipv6Addr {}

/// An address wrapping a full address body per version.
pub enum IpAddr {
    V4(Ipv4Addr),
    V6(Ipv6Addr),
}

/// Routes a packet of the given kind; routing only acknowledges the kind.
pub fn route(ip_kind: IpAddrKind) -> (k: IpAddrKind)
    ensures
        k == ip_kind,
{
    ip_kind
}

/// The kinds of message a component can receive.
#[derive(Debug)]
pub enum Message {
    Quit,
    Move { x: i32, y: i32 },
    Write(String),
    ChangeColor(i32, i32, i32),
}

impl Message {
    /// Handles the message; no handling is needed yet.
    pub fn call(&self) {
    }
}

/// A federal state minted on quarters.
#[derive(Clone, Copy, Debug, PartialEq, Eq, Structural)]
pub enum UsState {
    Alabama,
    Alaska,
}

/// United States coins.
pub enum Coin {
    Penny,
    Nickel,
    Dime,
    Quarter(UsState),
}

/// The value of a coin in cents.
pub fn value_in_cents(coin: Coin) -> (cents: u8)
    ensures
        cents == (match coin {
            Coin::Penny => 1u8,
            Coin::Nickel => 5u8,
            Coin::Dime => 10u8,
            Coin::Quarter(_) => 25u8,
        }),
{
    match coin {
        Coin::Penny => 1,
        Coin::Nickel => 5,
        Coin::Dime => 10,
        Coin::Quarter(_state) => 25,
    }
}

/// Adds one to the value if there is one; `None` stays `None`.
pub fn maybe_inc(x: Option<i32>) -> (r: Option<i32>)
    requires
        x matches Some(v) ==> v < i32::MAX,
    ensures
        x is None ==> r is None,
        x matches Some(v) ==> r == Some((v + 1) as i32),
{
    match x {
        None => None,
        Some(val) => Some(val + 1),
    }
}

/// The worked example: coins valued through `value_in_cents` and options
/// bumped through `maybe_inc`, each result checked statically.
pub fn match_flow() {
    let quarter = value_in_cents(Coin::Quarter(UsState::Alabama));
    assert(quarter == 25);
    let penny = value_in_cents(Coin::Penny);
    assert(penny == 1);
    let dime = value_in_cents(Coin::Dime);
    assert(dime == 10);
    let nickel = value_in_cents(Coin::Nickel);
    assert(nickel == 5);

    let value_here = maybe_inc(Some(5));
    assert(value_here == Some(6i32));
    let no_value = maybe_inc(None);
    assert(no_value is None);
}

} // verus!
