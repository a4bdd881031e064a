//! The plain records the host stores between runs, and the conversion
//! interface it uses for them.  These records hold only plain values;
//! the host turns them into whatever document format it keeps on
//! disk.

use vstd::prelude::*;
use crate::login::LoginState;
use crate::ui::ViewID;

verus! {

/// Conversion between a live object and the plain record the host
/// stores for it.
pub trait PersistentObject {
    type PersistentType;

    fn save_state(&self) -> Self::PersistentType;

    fn load_from_state(state: Self::PersistentType) -> Self where Self: core::marker::Sized;
}

/// The stored form of an RGBA color: the four channel values packed
/// into one integer, red in the highest byte.
#[derive(Clone, Copy, Debug, PartialEq, Eq, Structural)]
pub struct Color32Persist(pub u32);

impl Color32Persist {
    /// Packs four channel values, red highest.
    pub fn from_rgba(r: u8, g: u8, b: u8, a: u8) -> (c: Color32Persist)
        ensures
            c.0 == (r as int) * 0x1000000 + (g as int) * 0x10000 + (b as int) * 0x100 + (a as int),
    {
        Color32Persist(
            (r as u32) * 0x1000000 + (g as u32) * 0x10000 + (b as u32) * 0x100 + (a as u32),
        )
    }

    /// Unpacks the four channel values; exactly inverts `from_rgba`.
    pub fn to_rgba(&self) -> (r: (u8, u8, u8, u8))
        ensures
            r.0 == self.0 / 0x1000000 % 0x100,
            r.1 == self.0 / 0x10000 % 0x100,
            r.2 == self.0 / 0x100 % 0x100,
            r.3 == self.0 % 0x100,
    {
        (
            (self.0 / 0x1000000 % 0x100) as u8,
            (self.0 / 0x10000 % 0x100) as u8,
            (self.0 / 0x100 % 0x100) as u8,
            (self.0 % 0x100) as u8,
        )
    }
}

/// Packing four channels and unpacking them gives the channels back.
pub proof fn lemma_color_round_trip(r: u8, g: u8, b: u8, a: u8)
    ensures
        ({
            let packed = (r as int) * 0x1000000 + (g as int) * 0x10000 + (b as int) * 0x100 + (
            a as int);
            packed / 0x1000000 % 0x100 == r && packed / 0x10000 % 0x100 == g && packed / 0x100
                % 0x100 == b && packed % 0x100 == a
        }),
{
    let packed = (r as int) * 0x1000000 + (g as int) * 0x10000 + (b as int) * 0x100 + (a as int);
    assert(packed / 0x1000000 % 0x100 == r && packed / 0x10000 % 0x100 == g && packed / 0x100
        % 0x100 == b && packed % 0x100 == a) by (nonlinear_arith)
        requires
            packed == (r as int) * 0x1000000 + (g as int) * 0x10000 + (b as int) * 0x100 + (
            a as int),
            0 <= r < 256,
            0 <= g < 256,
            0 <= b < 256,
            0 <= a < 256,
    ;
}

/// The stored form of the multiplayer client: only the server address
/// survives a restart.
#[derive(Debug)]
pub struct MultiplayerClientPersist {
    pub server_url: Option<String>,
}

/// The stored form of the application state: the client record, the
/// view the user was in, and the login state.
#[derive(Debug)]
pub struct AppStatePersist {
    pub api: MultiplayerClientPersist,
    pub current_view: ViewID,
    pub login_state: LoginState,
}

/// The stored form of the whole application.
#[derive(Debug)]
pub struct GigaChessAppPersist {
    pub state: AppStatePersist,
}

/// The stored form of the board renderer: its six square colors.
#[derive(Debug, Clone, Copy, PartialEq, Eq, Structural)]
pub struct ChessBoardComponentPersist {
    pub light_color: Color32Persist,
    pub light_color_highlight: Color32Persist,
    pub light_color_threat: Color32Persist,
    pub dark_color: Color32Persist,
    pub dark_color_highlight: Color32Persist,
    pub dark_color_threat: Color32Persist,
}

} // verus!
