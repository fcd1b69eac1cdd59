//! Access to the services of the MM system table.
//!
//! The table is known by its address once it has been set. The services are functions of the
//! firmware; what their statuses and results come to is here.

use crate::efi::{Status, EFI_SUCCESS};
use vstd::prelude::*;

verus! {

/// A hexadecimal digit.
pub open spec fn digit_text(d: int) -> Seq<char> {
    if d == 0 {
        "0"@
    } else if d == 1 {
        "1"@
    } else if d == 2 {
        "2"@
    } else if d == 3 {
        "3"@
    } else if d == 4 {
        "4"@
    } else if d == 5 {
        "5"@
    } else if d == 6 {
        "6"@
    } else if d == 7 {
        "7"@
    } else if d == 8 {
        "8"@
    } else if d == 9 {
        "9"@
    } else if d == 10 {
        "a"@
    } else if d == 11 {
        "b"@
    } else if d == 12 {
        "c"@
    } else if d == 13 {
        "d"@
    } else if d == 14 {
        "e"@
    } else {
        "f"@
    }
}

/// A number in hexadecimal digits, without leading zeros.
pub open spec fn hex_text(x: nat) -> Seq<char>
    decreases x,
{
    if x < 16 {
        digit_text(x as int)
    } else {
        hex_text(x / 16) + digit_text(x as int % 16)
    }
}

/// Writes a hexadecimal digit.
fn digit(d: u64) -> (r: &'static str)
    requires
        d < 16,
    ensures
        r@ == digit_text(d as int),
{
    match d {
        0 => "0",
        1 => "1",
        2 => "2",
        3 => "3",
        4 => "4",
        5 => "5",
        6 => "6",
        7 => "7",
        8 => "8",
        9 => "9",
        10 => "a",
        11 => "b",
        12 => "c",
        13 => "d",
        14 => "e",
        _ => "f",
    }
}

/// Writes a number in hexadecimal digits, behind `text`.
fn append_hex(text: String, x: u64) -> (r: String)
    ensures
        r@ == text@ + hex_text(x as nat),
    decreases x,
{
    if x < 16 {
        text.concat(digit(x))
    } else {
        let ghost before = text@;
        let r = append_hex(text, x / 16).concat(digit(x % 16));
        assert(r@ =~= before + hex_text(x as nat));
        r
    }
}

/// Wrapper around the address of an MM system table, which is set once.
pub struct StandardMmServices {
    /// The address of the table.
    table: Option<u64>,
}

impl StandardMmServices {
    /// The address of the table, if it has been set.
    pub closed spec fn address(&self) -> Option<u64> {
        self.table
    }

    /// Creates a new `StandardMmServices` from an existing system table.
    pub fn new(mm_system_table: u64) -> (r: Self)
        ensures
            r.address() == Some(mm_system_table),
    {
        StandardMmServices { table: Some(mm_system_table) }
    }

    /// Creates an uninitialized instance.
    pub fn new_uninit() -> (r: Self)
        ensures
            r.address() is None,
    {
        StandardMmServices { table: None }
    }

    /// Initializes with the given system table; a table that has been set stays.
    pub fn init(&mut self, mm_system_table: u64)
        ensures
            final(self).address() == match old(self).address() {
                Some(table) => Some(table),
                None => Some(mm_system_table),
            },
    {
        if self.table.is_none() {
            self.table = Some(mm_system_table);
        }
    }

    /// Returns `true` if the instance has been initialized.
    pub fn is_init(&self) -> (r: bool)
        ensures
            r == (self.address() is Some),
    {
        self.table.is_some()
    }

    /// Returns the address of the system table, which has to have been set.
    pub fn as_mut_ptr(&self) -> (r: u64)
        requires
            self.address() is Some,
        ensures
            Some(r) == self.address(),
    {
        self.table.unwrap()
    }
}

/// What is shown of services for debugging: where the table is, if it has been set.
pub open spec fn services_text(address: Option<u64>) -> Seq<char> {
    match address {
        Some(table) => "StandardMmServices { table: 0x"@ + hex_text(table as nat) + " }"@,
        None => "StandardMmServices { table: \"Not Initialized\" }"@,
    }
}

impl StandardMmServices {
    /// Describes the services for debugging.
    pub fn debug_text(&self) -> (r: String)
        ensures
            r@ == services_text(self.address()),
    {
        match self.table {
            Some(table) => append_hex(
                "StandardMmServices { table: 0x".to_owned(),
                table,
            ).concat(" }"),
            None => "StandardMmServices { table: \"Not Initialized\" }".to_owned(),
        }
    }
}

impl Clone for StandardMmServices {
    fn clone(&self) -> (r: Self)
        ensures
            r.address() == self.address(),
    {
        StandardMmServices { table: self.table }
    }
}

/// How pages are to be allocated.
#[derive(Debug, Clone, Copy, PartialEq, Eq, Structural)]
pub enum AllocType {
    /// Anywhere.
    AnyPage,
    /// Anywhere up to an address.
    MaxAddress(u64),
    /// At an address.
    Address(u64),
}

impl AllocType {
    /// The number of the type, as the service takes it.
    pub open spec fn number(self) -> u32 {
        match self {
            AllocType::AnyPage => 0,
            AllocType::MaxAddress(_) => 1,
            AllocType::Address(_) => 2,
        }
    }

    /// Returns the number of the type.
    pub fn as_u32(self) -> (r: u32)
        ensures
            r == self.number(),
    {
        match self {
            AllocType::AnyPage => 0,
            AllocType::MaxAddress(_) => 1,
            AllocType::Address(_) => 2,
        }
    }

    /// The address that the service is handed, 0 where there is none.
    pub fn initial_address(self) -> (r: u64)
        ensures
            r == match self {
                AllocType::AnyPage => 0,
                AllocType::MaxAddress(address) => address,
                AllocType::Address(address) => address,
            },
    {
        match self {
            AllocType::AnyPage => 0,
            AllocType::MaxAddress(address) => address,
            AllocType::Address(address) => address,
        }
    }
}

/// What a service gave, if it succeeded: a handle, an interface, a buffer, or an address.
pub fn service_value(status: Status, value: u64) -> (r: Result<u64, Status>)
    ensures
        r == if status == EFI_SUCCESS {
            Ok::<u64, Status>(value)
        } else {
            Err(status)
        },
{
    if status == EFI_SUCCESS {
        Ok(value)
    } else {
        Err(status)
    }
}

/// Whether a service succeeded.
pub fn service_done(status: Status) -> (r: Result<(), Status>)
    ensures
        status == EFI_SUCCESS ==> r is Ok,
        status != EFI_SUCCESS ==> r == Err::<(), Status>(status),
{
    if status == EFI_SUCCESS {
        Ok(())
    } else {
        Err(status)
    }
}

/// The value of a hexadecimal digit.
pub open spec fn digit_value(c: char) -> int {
    if '0' <= c <= '9' {
        c as int - '0' as int
    } else {
        c as int - 'a' as int + 10
    }
}

/// The value of a text of hexadecimal digits, the most significant one first.
pub open spec fn text_value(text: Seq<char>) -> int
    decreases text.len(),
{
    if text.len() == 0 {
        0
    } else {
        text_value(text.drop_last()) * 16 + digit_value(text.last())
    }
}

proof fn lemma_digit_text(d: int)
    requires
        0 <= d < 16,
    ensures
        digit_text(d).len() == 1,
        '0' <= digit_text(d)[0] <= '9' || 'a' <= digit_text(d)[0] <= 'f',
        digit_value(digit_text(d)[0]) == d,
{
    reveal_strlit("0");
    reveal_strlit("1");
    reveal_strlit("2");
    reveal_strlit("3");
    reveal_strlit("4");
    reveal_strlit("5");
    reveal_strlit("6");
    reveal_strlit("7");
    reveal_strlit("8");
    reveal_strlit("9");
    reveal_strlit("a");
    reveal_strlit("b");
    reveal_strlit("c");
    reveal_strlit("d");
    reveal_strlit("e");
    reveal_strlit("f");
}

/// The digits of a number are hexadecimal ones in lower case, they give the number back, and no
/// zero is in front of them, but for the number zero.
pub proof fn law_hex_text(x: nat)
    ensures
        text_value(hex_text(x)) == x,
        hex_text(x).len() > 0,
        forall|i: int|
            0 <= i < hex_text(x).len() ==> '0' <= #[trigger] hex_text(x)[i] <= '9' || 'a'
                <= hex_text(x)[i] <= 'f',
        hex_text(x)[0] == '0' ==> x == 0,
    decreases x,
{
    reveal_with_fuel(text_value, 2);
    if x < 16 {
        lemma_digit_text(x as int);
        assert(hex_text(x).drop_last() =~= Seq::<char>::empty());
    } else {
        lemma_digit_text(x as int % 16);
        law_hex_text(x / 16);
        assert(hex_text(x).drop_last() =~= hex_text(x / 16));
        assert(hex_text(x).last() == digit_text(x as int % 16)[0]);
        assert(hex_text(x)[0] == hex_text(x / 16)[0]);
    }
}

/// What is shown of services tells where the table is, and whether it has been set.
pub proof fn law_services_text(address: Option<u64>)
    ensures
        address matches Some(table) ==> services_text(address)
            == "StandardMmServices { table: 0x"@ + hex_text(table as nat) + " }"@,
        address is None ==> services_text(address)
            == "StandardMmServices { table: \"Not Initialized\" }"@,
{
}

} // verus!
