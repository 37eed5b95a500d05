use vstd::prelude::*;
use crate::errors::ViewerError;
use crate::fileset::ImageEntry;
use crate::nav::NavigationState;
use crate::nav::next_index;
use crate::nav::prev_index;
use crate::refresh::RefreshState;

verus! {

/// The key codes the viewer reacts to, modelled apart from any
/// windowing library; the host translates its own key events into
/// these before handing them over.
#[derive(Clone, Copy, Debug, PartialEq, Eq, Structural)]
pub enum InputKey {
    Right,
    Left,
    Space,
    Escape,
    Other,
}

/// What one input event asks of the viewer.
#[derive(Clone, Copy, Debug, PartialEq, Eq, Structural)]
pub enum Action {
    NextImage,
    PrevImage,
    RandomImage,
    ToggleMirror,
    ToggleFullscreen,
    Quit,
    Ignore,
}

/// The action bound to a character: `u` next, `o` previous, `m`
/// mirror, `f` fullscreen, `q` quit.
pub open spec fn char_action(c: char) -> Action {
    if c == 'u' {
        Action::NextImage
    } else if c == 'o' {
        Action::PrevImage
    } else if c == 'm' {
        Action::ToggleMirror
    } else if c == 'f' {
        Action::ToggleFullscreen
    } else if c == 'q' {
        Action::Quit
    } else {
        Action::Ignore
    }
}

/// The action bound to a key: Right next, Left previous, Space random,
/// Escape quit.
pub open spec fn key_action(k: InputKey) -> Action {
    match k {
        InputKey::Right => Action::NextImage,
        InputKey::Left => Action::PrevImage,
        InputKey::Space => Action::RandomImage,
        InputKey::Escape => Action::Quit,
        InputKey::Other => Action::Ignore,
    }
}

/// The action a character event triggers.
pub fn action_for_char(c: char) -> (a: Action)
    ensures
        a == char_action(c),
{
    match c {
        'u' => Action::NextImage,
        'o' => Action::PrevImage,
        'm' => Action::ToggleMirror,
        'f' => Action::ToggleFullscreen,
        'q' => Action::Quit,
        _ => Action::Ignore,
    }
}

/// The action a key-down event triggers.
pub fn action_for_key(k: InputKey) -> (a: Action)
    ensures
        a == key_action(k),
{
    match k {
        InputKey::Right => Action::NextImage,
        InputKey::Left => Action::PrevImage,
        InputKey::Space => Action::RandomImage,
        InputKey::Escape => Action::Quit,
        InputKey::Other => Action::Ignore,
    }
}

/// One browsing session: the immutable image set, the navigation
/// position, the render-refresh state, and the mirror and fullscreen
/// flags.
pub struct Viewer {
    pub images: Vec<ImageEntry>,
    pub nav: NavigationState,
    pub refresh: RefreshState,
    pub mirrored: bool,
    pub fullscreen: bool,
}

impl Viewer {
    /// The session invariant: the set is non-empty and navigation
    /// tracks exactly its length.
    pub open spec fn wf(&self) -> bool {
        &&& self.nav.wf()
        &&& self.nav.count == self.images@.len()
    }

    /// Start a session on a built image set. An empty set fails
    /// construction — navigation on it would divide by zero — and the
    /// system does not start. The session begins at the located
    /// starting image (else the first), unmirrored, windowed, with the
    /// first load pending.
    pub fn new(images: Vec<ImageEntry>, initial: Option<usize>) -> (r: Result<
        Viewer,
        ViewerError,
    >)
        ensures
            r is Ok <==> images@.len() > 0,
            r is Err ==> r == Err::<Viewer, ViewerError>(ViewerError::InvalidInput),
            r matches Ok(v) ==> {
                &&& v.wf()
                &&& v.images@ == images@
                &&& v.nav.index == (match initial {
                    Some(i) => if i < images@.len() {
                        i as int
                    } else {
                        0
                    },
                    None => 0,
                })
                &&& v.refresh.needs_reload
                &&& v.refresh.counter == 0
                &&& !v.mirrored
                &&& !v.fullscreen
            },
    {
        if images.len() == 0 {
            return Err(ViewerError::InvalidInput);
        }
        let count = images.len();
        Ok(
            Viewer {
                images,
                nav: NavigationState::new(count, initial),
                refresh: RefreshState::new(),
                mirrored: false,
                fullscreen: false,
            },
        )
    }

    /// The path of the image the session currently shows.
    pub fn current_path(&self) -> (p: &Vec<u8>)
        requires
            self.wf(),
        ensures
            p@ == self.images@[self.nav.index as int].path@,
    {
        &self.images[self.nav.index].path
    }

    /// Apply one action to the session. Every navigation, mirror or
    /// fullscreen change marks the refresh state dirty; `Quit` asks the
    /// host to terminate and changes nothing else; `Ignore` is a no-op.
    pub fn apply(&mut self, a: Action) -> (quit: bool)
        requires
            old(self).wf(),
        ensures
            final(self).wf(),
            final(self).images@ == old(self).images@,
            final(self).nav.count == old(self).nav.count,
            quit == (a == Action::Quit),
            match a {
                Action::NextImage => {
                    &&& final(self).nav.index == next_index(
                        old(self).nav.index as int,
                        old(self).nav.count as int,
                    )
                    &&& final(self).refresh == (RefreshState {
                        counter: old(self).refresh.counter,
                        needs_reload: true,
                    })
                    &&& final(self).mirrored == old(self).mirrored
                    &&& final(self).fullscreen == old(self).fullscreen
                },
                Action::PrevImage => {
                    &&& final(self).nav.index == prev_index(
                        old(self).nav.index as int,
                        old(self).nav.count as int,
                    )
                    &&& final(self).refresh == (RefreshState {
                        counter: old(self).refresh.counter,
                        needs_reload: true,
                    })
                    &&& final(self).mirrored == old(self).mirrored
                    &&& final(self).fullscreen == old(self).fullscreen
                },
                Action::RandomImage => {
                    &&& final(self).refresh == (RefreshState {
                        counter: old(self).refresh.counter,
                        needs_reload: true,
                    })
                    &&& final(self).mirrored == old(self).mirrored
                    &&& final(self).fullscreen == old(self).fullscreen
                },
                Action::ToggleMirror => {
                    &&& final(self).nav == old(self).nav
                    &&& final(self).refresh == (RefreshState {
                        counter: old(self).refresh.counter,
                        needs_reload: true,
                    })
                    &&& final(self).mirrored == !old(self).mirrored
                    &&& final(self).fullscreen == old(self).fullscreen
                },
                Action::ToggleFullscreen => {
                    &&& final(self).nav == old(self).nav
                    &&& final(self).refresh == (RefreshState {
                        counter: old(self).refresh.counter,
                        needs_reload: true,
                    })
                    &&& final(self).mirrored == old(self).mirrored
                    &&& final(self).fullscreen == !old(self).fullscreen
                },
                Action::Quit => *final(self) == *old(self),
                Action::Ignore => *final(self) == *old(self),
            },
    {
        match a {
            Action::NextImage => {
                self.nav.next();
                self.refresh.mark_dirty();
                false
            },
            Action::PrevImage => {
                self.nav.prev();
                self.refresh.mark_dirty();
                false
            },
            Action::RandomImage => {
                self.nav.random();
                self.refresh.mark_dirty();
                false
            },
            Action::ToggleMirror => {
                self.mirrored = !self.mirrored;
                self.refresh.mark_dirty();
                false
            },
            Action::ToggleFullscreen => {
                self.fullscreen = !self.fullscreen;
                self.refresh.mark_dirty();
                false
            },
            Action::Quit => true,
            Action::Ignore => false,
        }
    }
}

} // verus!
