//! The protocols that a client and a server can speak.

use vstd::prelude::*;
use crate::failure::{outcome, Failure};

verus! {

/// A protocol between client and server.
#[derive(Clone, Copy, Debug, PartialEq, Eq, Structural)]
pub enum ProxyMode {
    NativeHttp,
    NativeMux,
    DazeAshe,
    DazeBaboon,
    DazeCzar,
    Wg,
}

impl ProxyMode {
    /// The name of a mode.
    pub open spec fn name(self) -> Seq<char> {
        match self {
            ProxyMode::NativeHttp => "native-http"@,
            ProxyMode::NativeMux => "native-mux"@,
            ProxyMode::DazeAshe => "daze-ashe"@,
            ProxyMode::DazeBaboon => "daze-baboon"@,
            ProxyMode::DazeCzar => "daze-czar"@,
            ProxyMode::Wg => "wg"@,
        }
    }

    /// The name of the mode.
    pub fn as_str(self) -> (r: &'static str)
        ensures
            r@ == self.name(),
    {
        match self {
            ProxyMode::NativeHttp => "native-http",
            ProxyMode::NativeMux => "native-mux",
            ProxyMode::DazeAshe => "daze-ashe",
            ProxyMode::DazeBaboon => "daze-baboon",
            ProxyMode::DazeCzar => "daze-czar",
            ProxyMode::Wg => "wg",
        }
    }

    /// The mode that the old switch for multiplexing and a mode select together.
    pub open spec fn with_legacy_mux(mux: bool, mode: ProxyMode) -> Result<
        ProxyMode,
        Seq<Seq<char>>,
    > {
        if !mux {
            Ok(mode)
        } else if mode == ProxyMode::NativeHttp || mode == ProxyMode::NativeMux {
            Ok(ProxyMode::NativeMux)
        } else {
            Err(seq!["--mux cannot be combined with a daze mode"@])
        }
    }

    /// The mode that the old switch for multiplexing and a mode select together.
    pub fn from_legacy_mux(mux: bool, mode: ProxyMode) -> (r: Result<ProxyMode, Failure>)
        ensures
            outcome(r) == ProxyMode::with_legacy_mux(mux, mode),
    {
        if mux {
            match mode {
                ProxyMode::NativeHttp => Ok(ProxyMode::NativeMux),
                ProxyMode::NativeMux => Ok(ProxyMode::NativeMux),
                _ => Err(Failure::new("--mux cannot be combined with a daze mode")),
            }
        } else {
            Ok(mode)
        }
    }
}

/// The modes have different names.
pub proof fn modes_have_their_own_names(
    a: ProxyMode,
    b: ProxyMode,
    r: &'static str,
    s: &'static str,
)
    requires
        call_ensures(ProxyMode::as_str, (a,), r),
        call_ensures(ProxyMode::as_str, (b,), s),
    ensures
        r@ == s@ <==> a == b,
        a == ProxyMode::Wg <==> r@.len() == 2,
{
    reveal_strlit("native-http");
    reveal_strlit("native-mux");
    reveal_strlit("daze-ashe");
    reveal_strlit("daze-baboon");
    reveal_strlit("daze-czar");
    reveal_strlit("wg");
    assert("native-http"@.len() == 11 && "native-http"@[0] == 'n');
    assert("native-mux"@.len() == 10);
    assert("daze-ashe"@.len() == 9 && "daze-ashe"@[5] == 'a');
    assert("daze-baboon"@.len() == 11 && "daze-baboon"@[0] == 'd');
    assert("daze-czar"@.len() == 9 && "daze-czar"@[5] == 'c');
    assert("wg"@.len() == 2);
}

} // verus!
