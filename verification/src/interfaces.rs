//! The choice of the transport to a board, and of the serial port.

use vstd::prelude::*;
use crate::errors::{CLIError, TockloaderError};
use crate::utf8::{replace, replaced};

verus! {

/// The transports to a board.
#[derive(Clone, Copy, Debug, PartialEq, Eq)]
pub enum InterfaceKind {
    Serial,
    OpenOCD,
    JLink,
}

/// How many of the three are set.
pub open spec fn count_set(serial: bool, jlink: bool, openocd: bool) -> int {
    (if serial {
        1int
    } else {
        0
    }) + (if jlink {
        1int
    } else {
        0
    }) + (if openocd {
        1int
    } else {
        0
    })
}

/// Chooses the transport from the flags of the command line. More than one
/// flag is an error. Without any flag the transport is OpenOCD.
pub fn select_interface(serial: bool, jlink: bool, openocd: bool) -> (r: Result<
    InterfaceKind,
    TockloaderError,
>)
    ensures
        r == (if count_set(serial, jlink, openocd) > 1 {
            Err::<InterfaceKind, TockloaderError>(
                TockloaderError::CLIError(CLIError::MultipleInterfaces),
            )
        } else if serial {
            Ok(InterfaceKind::Serial)
        } else if jlink {
            Ok(InterfaceKind::JLink)
        } else {
            Ok(InterfaceKind::OpenOCD)
        }),
{
    let set: u8 = (if serial {
        1u8
    } else {
        0u8
    }) + (if jlink {
        1u8
    } else {
        0u8
    }) + (if openocd {
        1u8
    } else {
        0u8
    });
    if set > 1 {
        return Err(TockloaderError::CLIError(CLIError::MultipleInterfaces));
    }
    if serial {
        Ok(InterfaceKind::Serial)
    } else if jlink {
        Ok(InterfaceKind::JLink)
    } else {
        Ok(InterfaceKind::OpenOCD)
    }
}

/// The path of a port under which it can be opened: a port listed under
/// `/sys/class/tty/` is opened under `/dev/`.
pub open spec fn cleaned_port_path(port: Seq<char>) -> Seq<char> {
    replaced(port, "/sys/class/tty/"@, "/dev/"@)
}

/// Gives the path under which a listed port can be opened. Ports are
/// listed as `/sys/class/tty/<port>`, and some systems cannot open them by
/// that path but by `/dev/<port>`. Other names, such as those of COM ports,
/// stay as they are.
pub fn clean_port_path(port: String) -> (r: String)
    ensures
        r@ == cleaned_port_path(port@),
{
    proof {
        reveal_strlit("/sys/class/tty/");
    }
    replace(port.as_str(), "/sys/class/tty/", "/dev/")
}

/// Chooses the serial port: the one that the user named, else the only one
/// that is available. `available_ports` is looked at only where the user
/// named none, and must not hold more than one port then: the choice among
/// several is not made here.
pub fn choose_port(user_port: Option<String>, available_ports: Vec<String>) -> (r: Result<
    String,
    TockloaderError,
>)
    requires
        user_port is None ==> available_ports@.len() <= 1,
    ensures
        match user_port {
            Some(port) => r is Ok && r->Ok_0@ == port@,
            None => if available_ports@.len() == 0 {
                r is Err && r->Err_0 == TockloaderError::NoPortAvailable
            } else {
                r is Ok && r->Ok_0@ == cleaned_port_path(available_ports@[0]@)
            },
        },
{
    match user_port {
        Some(port) => Ok(port),
        None => {
            if available_ports.len() == 0 {
                Err(TockloaderError::NoPortAvailable)
            } else {
                Ok(clean_port_path(available_ports[0].clone()))
            }
        },
    }
}

} // verus!
