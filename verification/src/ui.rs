//! The pure state behind the client's views, modals and windows: which
//! one is open, what the user has typed, and what happens to that
//! state when an event arrives.  Rendering itself stays with the host;
//! these types only decide.

use vstd::prelude::*;
use crate::login::LoginStateStatus;

verus! {

/// The screens the client can show.
#[derive(Clone, Copy, Debug, PartialEq, Eq, Structural)]
pub enum ViewID {
    MainMenu,
    OnlineHome,
    Sandbox,
}

impl Default for ViewID {
    /// The client opens on the main menu.
    fn default() -> (r: ViewID)
        ensures
            r == ViewID::MainMenu,
    {
        ViewID::MainMenu
    }
}

/// What a modal reports back to the view that shows it.
#[derive(Clone, Copy, Debug, PartialEq, Eq, Structural, Hash)]
pub enum ModalEvent {
    NoEvent,
    ChooseLogin,
    ChooseRegister,
    LoginSuccess,
    RegisterSuccess,
    SetServerSettings,
}

/// What a toggleable window reports back to the view that shows it.
#[derive(Clone, Copy, Debug, PartialEq, Eq, Structural, Hash)]
pub enum WindowEvent {
    NoEvent,
    CreateSandboxGame,
}

/// The state behind the login modal: whether it is open, whether it
/// was just opened (so stale login state gets cleared once), and what
/// the user has typed.
#[derive(Debug)]
pub struct LoginModal {
    pub open: bool,
    pub just_opened: bool,
    pub username: String,
    pub password: String,
}

impl LoginModal {
    /// A closed modal with empty fields.
    pub fn new() -> (r: LoginModal)
        ensures
            !r.open,
            !r.just_opened,
            r.username@.len() == 0,
            r.password@.len() == 0,
    {
        LoginModal { open: false, just_opened: false, username: String::new(), password: String::new() }
    }

    /// Opens or closes the modal; either way the next rendering pass
    /// treats it as freshly opened.
    pub fn set_open(&mut self, open: bool)
        ensures
            final(self).open == open,
            final(self).just_opened == open,
            final(self).username == old(self).username,
            final(self).password == old(self).password,
    {
        self.open = open;
        self.just_opened = open;
    }

    /// Whether the modal is shown.
    pub fn is_open(&self) -> (r: bool)
        ensures
            r == self.open,
    {
        self.open
    }
}

/// The state behind the login-or-register choice modal.
#[derive(Debug)]
pub struct LoginOrRegisterModal {
    pub open: bool,
}

impl LoginOrRegisterModal {
    /// A closed modal.
    pub fn new() -> (r: LoginOrRegisterModal)
        ensures
            !r.open,
    {
        LoginOrRegisterModal { open: false }
    }

    /// Opens or closes the modal.
    pub fn set_open(&mut self, open: bool)
        ensures
            final(self).open == open,
    {
        self.open = open;
    }

    /// Whether the modal is shown.
    pub fn is_open(&self) -> (r: bool)
        ensures
            r == self.open,
    {
        self.open
    }
}

/// The state behind the registration modal: whether it is open,
/// whether it was just opened, and what the user has typed.
#[derive(Debug)]
pub struct RegisterModal {
    pub username: String,
    pub password: String,
    pub invite_code: String,
    pub open: bool,
    pub just_opened: bool,
}

impl RegisterModal {
    /// A closed modal with empty fields.
    pub fn new() -> (r: RegisterModal)
        ensures
            !r.open,
            !r.just_opened,
            r.username@.len() == 0,
            r.password@.len() == 0,
            r.invite_code@.len() == 0,
    {
        RegisterModal {
            username: String::new(),
            password: String::new(),
            invite_code: String::new(),
            open: false,
            just_opened: false,
        }
    }

    /// Opens or closes the modal; either way the next rendering pass
    /// treats it as freshly opened.
    pub fn set_open(&mut self, open: bool)
        ensures
            final(self).open == open,
            final(self).just_opened == open,
            final(self).username == old(self).username,
            final(self).password == old(self).password,
            final(self).invite_code == old(self).invite_code,
    {
        self.open = open;
        self.just_opened = open;
    }

    /// Whether the modal is shown.
    pub fn is_open(&self) -> (r: bool)
        ensures
            r == self.open,
    {
        self.open
    }
}

/// The state behind the server-settings modal: whether it is open,
/// the typed address, and whether the field was seeded from the
/// stored address.
#[derive(Debug)]
pub struct ServerSettingsModal {
    pub open: bool,
    pub url: String,
    pub initialized: bool,
}

impl ServerSettingsModal {
    /// A closed modal with an empty, unseeded address field.
    pub fn new() -> (r: ServerSettingsModal)
        ensures
            !r.open,
            !r.initialized,
            r.url@.len() == 0,
    {
        ServerSettingsModal { open: false, url: String::new(), initialized: false }
    }

    /// Opens or closes the modal.
    pub fn set_open(&mut self, open: bool)
        ensures
            final(self).open == open,
            final(self).url == old(self).url,
            final(self).initialized == old(self).initialized,
    {
        self.open = open;
    }

    /// Whether the modal is shown.
    pub fn is_open(&self) -> (r: bool)
        ensures
            r == self.open,
    {
        self.open
    }
}

/// The state behind the main menu: its four modals.
#[derive(Debug)]
pub struct MainMenuView {
    pub login_modal: LoginModal,
    pub login_or_register_modal: LoginOrRegisterModal,
    pub register_modal: RegisterModal,
    pub server_settings_modal: ServerSettingsModal,
}

impl MainMenuView {
    /// A menu with all modals closed.
    pub fn new() -> (r: MainMenuView)
        ensures
            !r.login_modal.open,
            !r.login_or_register_modal.open,
            !r.register_modal.open,
            !r.server_settings_modal.open,
    {
        MainMenuView {
            login_modal: LoginModal::new(),
            login_or_register_modal: LoginOrRegisterModal::new(),
            register_modal: RegisterModal::new(),
            server_settings_modal: ServerSettingsModal::new(),
        }
    }

    /// Reacts to the login modal: on success the modal closes and the
    /// client moves to the online home screen.
    pub fn on_login_event(&mut self, event: ModalEvent) -> (r: Option<ViewID>)
        ensures
            r == (if event == ModalEvent::LoginSuccess {
                Some(ViewID::OnlineHome)
            } else {
                None::<ViewID>
            }),
            event == ModalEvent::LoginSuccess ==> !final(self).login_modal.open,
            event != ModalEvent::LoginSuccess ==> *final(self) == *old(self),
    {
        if event == ModalEvent::LoginSuccess {
            self.login_modal.set_open(false);
            Some(ViewID::OnlineHome)
        } else {
            None
        }
    }

    /// Reacts to the login-or-register choice: the choice modal closes
    /// and the chosen modal opens.
    pub fn on_login_or_register_event(&mut self, event: ModalEvent)
        ensures
            event == ModalEvent::ChooseLogin ==> !final(self).login_or_register_modal.open
                && final(self).login_modal.open,
            event == ModalEvent::ChooseRegister ==> !final(self).login_or_register_modal.open
                && final(self).register_modal.open,
            (event != ModalEvent::ChooseLogin && event != ModalEvent::ChooseRegister)
                ==> *final(self) == *old(self),
    {
        if event == ModalEvent::ChooseLogin {
            self.login_or_register_modal.set_open(false);
            self.login_modal.set_open(true);
        } else if event == ModalEvent::ChooseRegister {
            self.login_or_register_modal.set_open(false);
            self.register_modal.set_open(true);
        }
    }

    /// Reacts to the registration modal: on success the modal closes
    /// and the client moves to the online home screen.
    pub fn on_register_event(&mut self, event: ModalEvent) -> (r: Option<ViewID>)
        ensures
            r == (if event == ModalEvent::RegisterSuccess {
                Some(ViewID::OnlineHome)
            } else {
                None::<ViewID>
            }),
            event == ModalEvent::RegisterSuccess ==> !final(self).register_modal.open,
            event != ModalEvent::RegisterSuccess ==> *final(self) == *old(self),
    {
        if event == ModalEvent::RegisterSuccess {
            self.register_modal.set_open(false);
            Some(ViewID::OnlineHome)
        } else {
            None
        }
    }

    /// Reacts to the server-settings modal: once the settings are
    /// saved, the login-or-register choice opens.
    pub fn on_server_settings_event(&mut self, event: ModalEvent)
        ensures
            event == ModalEvent::SetServerSettings ==> !final(self).server_settings_modal.open
                && final(self).login_or_register_modal.open,
            event != ModalEvent::SetServerSettings ==> *final(self) == *old(self),
    {
        if event == ModalEvent::SetServerSettings {
            self.server_settings_modal.set_open(false);
            self.login_or_register_modal.set_open(true);
        }
    }

    /// The sandbox button: move straight to the sandbox screen.
    pub fn on_sandbox_clicked(&mut self) -> (r: ViewID)
        ensures
            r == ViewID::Sandbox,
            *final(self) == *old(self),
    {
        ViewID::Sandbox
    }

    /// The online button: ask for the server address first, then for
    /// credentials, and only then move to the online home screen.
    pub fn on_online_clicked(&mut self, api_ready: bool, login_status: LoginStateStatus) -> (r:
        Option<ViewID>)
        ensures
            !api_ready ==> r is None && final(self).server_settings_modal.open,
            (api_ready && login_status != LoginStateStatus::Success) ==> r is None
                && final(self).login_or_register_modal.open,
            (api_ready && login_status == LoginStateStatus::Success) ==> r == Some(
                ViewID::OnlineHome,
            ) && *final(self) == *old(self),
    {
        if !api_ready {
            self.server_settings_modal.set_open(true);
            None
        } else if login_status != LoginStateStatus::Success {
            self.login_or_register_modal.set_open(true);
            None
        } else {
            Some(ViewID::OnlineHome)
        }
    }
}

/// The state behind the online home screen; it keeps none of its own.
#[derive(Debug)]
pub struct OnlineHomeView;

impl OnlineHomeView {
    /// A fresh online home screen.
    pub fn new() -> (r: OnlineHomeView) {
        OnlineHomeView
    }

    /// The home button: back to the main menu.
    pub fn on_home_clicked(&mut self) -> (r: ViewID)
        ensures
            r == ViewID::MainMenu,
    {
        ViewID::MainMenu
    }
}

/// The state behind the game-control window: whether it is shown.
#[derive(Debug)]
pub struct GameControlWindow {
    pub open: bool,
}

impl GameControlWindow {
    /// A closed window.
    pub fn new() -> (r: GameControlWindow)
        ensures
            !r.open,
    {
        GameControlWindow { open: false }
    }

    /// Whether the window is shown.
    pub fn is_open(&self) -> (r: bool)
        ensures
            r == self.open,
    {
        self.open
    }

    /// Opens or closes the window.
    pub fn set_open(&mut self, open: bool)
        ensures
            final(self).open == open,
    {
        self.open = open;
    }
}

/// The state behind the sandbox game-creation window: whether it is
/// shown.
#[derive(Debug)]
pub struct SandboxGameCreationWindow {
    pub open: bool,
}

impl SandboxGameCreationWindow {
    /// A closed window.
    pub fn new() -> (r: SandboxGameCreationWindow)
        ensures
            !r.open,
    {
        SandboxGameCreationWindow { open: false }
    }

    /// Whether the window is shown.
    pub fn is_open(&self) -> (r: bool)
        ensures
            r == self.open,
    {
        self.open
    }

    /// Opens or closes the window.
    pub fn set_open(&mut self, open: bool)
        ensures
            final(self).open == open,
    {
        self.open = open;
    }
}

/// The piece-image cache bookkeeping: for every piece-and-side pair,
/// the size its image was last rasterised at.  An image is reloaded
/// only when it is first shown or shown at a new size.
#[derive(Debug)]
pub struct AssetServer {
    last_piece_size: std::collections::HashMap<u8, u32>,
}

impl AssetServer {
    /// An empty cache.
    pub fn new() -> (r: AssetServer)
        ensures
            r@ == Map::<u8, u32>::empty(),
    {
        AssetServer { last_piece_size: std::collections::HashMap::new() }
    }

    /// Whether the image for this cache key must be rasterised again
    /// for the given size: it was never loaded, or at another size.
    pub fn needs_reload(&self, key: u8, size: u32) -> (r: bool)
        ensures
            r == (!self@.contains_key(key) || self@[key] != size),
    {
        match self.last_piece_size.get(&key) {
            Some(last) => *last != size,
            None => true,
        }
    }

    /// Records the size the image for this cache key was rasterised
    /// at.
    pub fn note_loaded(&mut self, key: u8, size: u32)
        ensures
            final(self)@ == old(self)@.insert(key, size),
    {
        self.last_piece_size.insert(key, size);
    }
}

impl View for AssetServer {
    type V = Map<u8, u32>;

    closed spec fn view(&self) -> Map<u8, u32> {
        self.last_piece_size@
    }
}

/// The cache key of a piece of one side: the piece's index shifted by
/// six for Black, as the asset table is laid out.
pub fn piece_color_key(piece: crate::piece::Piece, color: crate::color::Color) -> (r: u8)
    ensures
        r == piece.spec_ordinal() + color.spec_ordinal() * 6,
{
    piece.ordinal() + color.ordinal() * 6
}

} // verus!
