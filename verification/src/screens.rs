//! Closed sets of interface states handled by exhaustive matching: the
//! game-screen flow of the screen manager and the camera-follow modes of
//! the side-scrolling camera. Both advance by pure decisions on plain
//! inputs; reading the keys and drawing stay with the window collaborator.

use vstd::prelude::*;

verus! {

/// How many frames the logo screen is shown before the title appears.
pub const LOGO_FRAMES: u32 = 120;

/// The screens the game cycles through.
#[derive(Clone, Copy, PartialEq, Eq, Structural, Debug)]
pub enum Screen {
    Logo,
    Title,
    GamePlay,
    Ending,
}

/// One frame of the screen manager. On the logo screen the frame counter
/// ticks up and the title appears once it passes `LOGO_FRAMES`; on every
/// other screen, pressing the advance control moves one screen along, the
/// ending looping back to the title.
pub fn step_screen(s: Screen, frames: u32, advance: bool) -> (r: (Screen, u32))
    requires
        frames < u32::MAX,
    ensures
        s is Logo ==> r.1 == frames + 1 && r.0 == (if frames + 1 > LOGO_FRAMES {
            Screen::Title
        } else {
            Screen::Logo
        }),
        !(s is Logo) ==> r.1 == frames,
        s is Title ==> r.0 == (if advance {
            Screen::GamePlay
        } else {
            Screen::Title
        }),
        s is GamePlay ==> r.0 == (if advance {
            Screen::Ending
        } else {
            Screen::GamePlay
        }),
        s is Ending ==> r.0 == (if advance {
            Screen::Title
        } else {
            Screen::Ending
        }),
{
    match s {
        Screen::Logo => {
            let f = frames + 1;
            if f > LOGO_FRAMES {
                (Screen::Title, f)
            } else {
                (Screen::Logo, f)
            }
        },
        Screen::Title => {
            if advance {
                (Screen::GamePlay, frames)
            } else {
                (Screen::Title, frames)
            }
        },
        Screen::GamePlay => {
            if advance {
                (Screen::Ending, frames)
            } else {
                (Screen::GamePlay, frames)
            }
        },
        Screen::Ending => {
            if advance {
                (Screen::Title, frames)
            } else {
                (Screen::Ending, frames)
            }
        },
    }
}

/// The camera-follow behaviours of the side-scrolling demo.
#[derive(Clone, Copy, PartialEq, Eq, Structural, Debug)]
pub enum CameraMode {
    FollowCenter,
    FollowCenterClamp,
    FollowCenterSmooth,
    FollowCenterHorizontal,
    PlayerPush,
}

/// The next camera mode in the fixed cycle the mode key steps through.
pub fn next_camera_mode(m: CameraMode) -> (r: CameraMode)
    ensures
        m is FollowCenter ==> r is FollowCenterClamp,
        m is FollowCenterClamp ==> r is FollowCenterSmooth,
        m is FollowCenterSmooth ==> r is FollowCenterHorizontal,
        m is FollowCenterHorizontal ==> r is PlayerPush,
        m is PlayerPush ==> r is FollowCenter,
{
    match m {
        CameraMode::FollowCenter => CameraMode::FollowCenterClamp,
        CameraMode::FollowCenterClamp => CameraMode::FollowCenterSmooth,
        CameraMode::FollowCenterSmooth => CameraMode::FollowCenterHorizontal,
        CameraMode::FollowCenterHorizontal => CameraMode::PlayerPush,
        CameraMode::PlayerPush => CameraMode::FollowCenter,
    }
}

} // verus!
