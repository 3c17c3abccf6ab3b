//! The home screen: a menu of the tests that this computer can run.

use vstd::prelude::*;
use crate::codes::{KEY_1, KEY_2, KEY_3, KEY_DOWN, KEY_ENTER, KEY_ESC, KEY_Q, KEY_UP};
use crate::event_handler::{AppEvent, AppEventView};
use crate::machine_detect::{has_touchscreen, ComputerModel};
use crate::screen::{Nav, ScreenId};

verus! {

/// One line of the menu: what it says and where it leads.
#[derive(Debug, Clone, Copy)]
pub struct MenuEntry {
    pub label: &'static str,
    pub target: ScreenId,
}

/// State of the home screen.
#[derive(Debug)]
pub struct HomeScreen {
    pub selected: usize,
    pub menu: Vec<MenuEntry>,
}

/// Mathematical model of a [`HomeScreen`]: the marked line, and the labels and
/// targets of the lines.
pub struct HomeView {
    pub selected: usize,
    pub labels: Seq<Seq<char>>,
    pub targets: Seq<ScreenId>,
}

impl View for HomeScreen {
    type V = HomeView;

    open spec fn view(&self) -> HomeView {
        HomeView {
            selected: self.selected,
            labels: self.menu@.map_values(|e: MenuEntry| e.label@),
            targets: self.menu@.map_values(|e: MenuEntry| e.target),
        }
    }
}

impl HomeView {
    /// The menu has at least two lines, as many labels as targets, and one of
    /// the lines is marked.
    pub open spec fn wf(self) -> bool {
        &&& self.targets.len() >= 2
        &&& self.labels.len() == self.targets.len()
        &&& self.selected < self.targets.len()
    }

    /// The menu of a computer of the given model: the keyboard test, the
    /// touchscreen test where there is a touchscreen, and the way out.
    pub open spec fn initial(model: ComputerModel) -> HomeView {
        if model == ComputerModel::DatorBBFalt || model == ComputerModel::DatorBBFaltGPS {
            HomeView {
                selected: 0,
                labels: seq!["Keyboard Test"@, "Touchscreen Test"@, "Exit"@],
                targets: seq![ScreenId::KeyboardTest, ScreenId::TouchscreenTest, ScreenId::Exit],
            }
        } else {
            HomeView {
                selected: 0,
                labels: seq!["Keyboard Test"@, "Exit"@],
                targets: seq![ScreenId::KeyboardTest, ScreenId::Exit],
            }
        }
    }

    /// The marked line after the key `code`: down and up move it and wrap
    /// around, every other key leaves it.
    pub open spec fn selected_after(self, code: u16) -> usize {
        let n = self.targets.len() as int;
        if code == KEY_DOWN {
            ((self.selected + 1) % n) as usize
        } else if code == KEY_UP {
            ((self.selected + n - 1) % n) as usize
        } else {
            self.selected
        }
    }

    /// Where the key `code` leads: enter to the marked line, Esc and Q to the
    /// way out, a digit to the line of that number if there is one.
    pub open spec fn key_leads(self, code: u16) -> Nav {
        if code == KEY_ENTER {
            Nav::To(self.targets[self.selected as int])
        } else if code == KEY_ESC || code == KEY_Q {
            Nav::To(ScreenId::Exit)
        } else if code == KEY_1 {
            Nav::To(self.targets[0])
        } else if code == KEY_2 {
            Nav::To(self.targets[1])
        } else if code == KEY_3 && self.targets.len() > 2 {
            Nav::To(self.targets[2])
        } else {
            Nav::Stay
        }
    }

    /// The state after an event; only keys change it.
    pub open spec fn handled(self, ev: AppEventView) -> HomeView {
        match ev {
            AppEventView::Key { code, .. } => HomeView {
                selected: self.selected_after(code),
                ..self
            },
            _ => self,
        }
    }

    /// Where an event leads.
    pub open spec fn leads(self, ev: AppEventView) -> Nav {
        match ev {
            AppEventView::Key { code, .. } => self.key_leads(code),
            _ => Nav::Stay,
        }
    }
}

impl HomeScreen {
    /// The home screen of a computer of the given model, its first line marked.
    pub fn new(model: ComputerModel) -> (s: Self)
        ensures
            s@ == HomeView::initial(model),
            s@.wf(),
    {
        let mut menu: Vec<MenuEntry> = Vec::new();
        menu.push(MenuEntry { label: "Keyboard Test", target: ScreenId::KeyboardTest });
        if has_touchscreen(model) {
            menu.push(MenuEntry { label: "Touchscreen Test", target: ScreenId::TouchscreenTest });
        }
        menu.push(MenuEntry { label: "Exit", target: ScreenId::Exit });
        let s = HomeScreen { selected: 0, menu };
        assert(s@.labels =~= HomeView::initial(model).labels);
        assert(s@.targets =~= HomeView::initial(model).targets);
        s
    }

    /// Which screen this is.
    pub fn id(&self) -> (id: ScreenId)
        ensures
            id == ScreenId::Home,
    {
        ScreenId::Home
    }

    /// Takes an event and says where it leads.
    pub fn handle_event(&mut self, event: AppEvent) -> (nav: Nav)
        requires
            old(self)@.wf(),
        ensures
            final(self)@ == old(self)@.handled(event@),
            final(self)@.wf(),
            nav == old(self)@.leads(event@),
    {
        if let AppEvent::Key { code, info: _ } = &event {
            let code: u16 = *code;
            let n: usize = self.menu.len();
            assert(self@.targets.len() == n);
            if code == KEY_DOWN {
                self.selected = ((self.selected as u128 + 1) % n as u128) as usize;
            } else if code == KEY_UP {
                self.selected = ((self.selected as u128 + n as u128 - 1) % n as u128) as usize;
            } else if code == KEY_ENTER {
                return Nav::To(self.menu[self.selected].target);
            } else if code == KEY_ESC || code == KEY_Q {
                return Nav::To(ScreenId::Exit);
            } else if code == KEY_1 {
                return Nav::To(self.menu[0].target);
            } else if code == KEY_2 {
                return Nav::To(self.menu[1].target);
            } else if code == KEY_3 {
                if n > 2 {
                    return Nav::To(self.menu[2].target);
                }
            }
        }
        Nav::Stay
    }
}

} // verus!
