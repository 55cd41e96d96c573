//! The keyboard-driven application state machine: which pane has focus,
//! what the two linked lists select, whether the help overlay is shown, and
//! which side-effecting action each key press asks the caller to perform.
//!
//! The machine itself performs no input, output or drawing: the caller feeds
//! it one key at a time and carries out the returned action (querying or
//! commanding the network client), then hands any fresh status back through
//! `reload_status`.

use vstd::prelude::*;
use vstd::string::StringExecFns;
use rand::Rng;
use crate::list::{next_selection, previous_selection, StatefulList};
use crate::nord::{City, Country, Nord, Status};

verus! {

/// The pane that receives directional key input.
#[derive(PartialEq, Eq, Structural, Clone, Copy, Debug)]
pub enum Pane {
    Country,
    City,
}

impl Pane {
    /// The pane focused at startup.
    pub fn first() -> (r: Pane)
        ensures
            r == Pane::Country,
    {
        Pane::Country
    }

    /// The pane after advancing focus: the two panes simply toggle.
    pub fn next(&self) -> (r: Pane)
        ensures
            r == pane_toggled(*self),
    {
        match *self {
            Pane::Country => Pane::City,
            Pane::City => Pane::Country,
        }
    }

    /// The pane after retreating focus; with two panes this is the same
    /// toggle as advancing.
    pub fn prev(&self) -> (r: Pane)
        ensures
            r == pane_toggled(*self),
    {
        match *self {
            Pane::Country => Pane::City,
            Pane::City => Pane::Country,
        }
    }
}

/// The other pane.
pub open spec fn pane_toggled(p: Pane) -> Pane {
    match p {
        Pane::Country => Pane::City,
        Pane::City => Pane::Country,
    }
}

/// A key press, as the state machine understands it. Anything the machine
/// ignores may be fed as `Other`.
#[derive(PartialEq, Eq, Structural, Clone, Copy, Debug)]
pub enum Key {
    Char(char),
    Up,
    Down,
    Left,
    Right,
    Tab,
    Enter,
    Esc,
    Other,
}

/// The side effect a key press asks the caller to perform. `Connect` and
/// `Disconnect` imply a status re-fetch afterwards, as does `Refresh`.
#[derive(Debug)]
pub enum Action {
    Nothing,
    Exit,
    Refresh,
    Connect(String),
    Disconnect,
}

/// Keys that quit (or, when the help overlay is shown, merely hide it).
pub open spec fn is_quit_key(k: Key) -> bool {
    k == Key::Char('q') || k == Key::Esc
}

/// Keys that advance the focus pane.
pub open spec fn is_pane_next_key(k: Key) -> bool {
    k == Key::Char('l') || k == Key::Right || k == Key::Tab
}

/// Keys that retreat the focus pane.
pub open spec fn is_pane_prev_key(k: Key) -> bool {
    k == Key::Char('h') || k == Key::Left
}

/// Keys that move the focused cursor down.
pub open spec fn is_down_key(k: Key) -> bool {
    k == Key::Char('j') || k == Key::Down
}

/// Keys that move the focused cursor up.
pub open spec fn is_up_key(k: Key) -> bool {
    k == Key::Char('k') || k == Key::Up
}

/// Keys that connect to the selected item of the focused pane.
pub open spec fn is_connect_key(k: Key) -> bool {
    k == Key::Char('c') || k == Key::Enter
}

/// A cursor read with the default of index 0 when nothing is selected.
pub open spec fn selection_or_zero(sel: Option<usize>) -> int {
    match sel {
        Some(i) => i as int,
        None => 0,
    }
}

/// The aggregate state: last status, focus pane, the two linked lists and
/// the help-overlay flag.
pub struct App {
    pub status: Status,
    pub pane: Pane,
    pub countries: StatefulList<Country>,
    pub cities: StatefulList<City>,
    pub help: bool,
}

/// The help flag after a key press: `?` toggles it, and a quit key hides a
/// shown overlay instead of quitting.
pub open spec fn expected_help(h: bool, k: Key) -> bool {
    if is_quit_key(k) {
        false
    } else if k == Key::Char('?') {
        !h
    } else {
        h
    }
}

/// The focus pane after a key press.
pub open spec fn expected_pane(p: Pane, k: Key) -> Pane {
    if is_pane_next_key(k) || is_pane_prev_key(k) {
        pane_toggled(p)
    } else {
        p
    }
}

/// The country cursor after a key press. Cursor keys steer the country list
/// from the country pane; from the city pane, `g` and `G` still jump the
/// country cursor — a quirk of the control scheme that is preserved.
pub open spec fn expected_country_selection(pre: App, k: Key) -> Option<usize> {
    let len = pre.countries.items@.len();
    let sel = pre.countries.state.selected();
    if pre.pane == Pane::Country && is_down_key(k) {
        next_selection(sel, len)
    } else if pre.pane == Pane::Country && is_up_key(k) {
        previous_selection(sel, len)
    } else if k == Key::Char('g') {
        Some(0usize)
    } else if k == Key::Char('G') {
        Some((len - 1) as usize)
    } else {
        sel
    }
}

/// Whether a key press replaces the city list with the cities of the
/// country now under the cursor. Only country-pane cursor moves do, and `G`
/// (jump to last) does not — a preserved asymmetry.
pub open spec fn reloads_cities(p: Pane, k: Key) -> bool {
    p == Pane::Country && (is_down_key(k) || is_up_key(k) || k == Key::Char('g'))
}

/// The items of the city list after a key press: recomputed from the
/// country under the cursor on a reload, untouched otherwise.
pub open spec fn expected_cities_items(pre: App, k: Key) -> Seq<City> {
    if reloads_cities(pre.pane, k) {
        pre.countries.items@[selection_or_zero(expected_country_selection(pre, k))].cities@
    } else {
        pre.cities.items@
    }
}

/// The city cursor after a key press: reset on a reload, steered by the
/// cursor keys from the city pane, untouched otherwise.
pub open spec fn expected_cities_selection(pre: App, k: Key) -> Option<usize> {
    if reloads_cities(pre.pane, k) {
        None
    } else if pre.pane == Pane::City && is_down_key(k) {
        next_selection(pre.cities.state.selected(), pre.cities.items@.len())
    } else if pre.pane == Pane::City && is_up_key(k) {
        previous_selection(pre.cities.state.selected(), pre.cities.items@.len())
    } else {
        pre.cities.state.selected()
    }
}

/// The index whose item a connect key targets in the focused pane.
pub open spec fn connect_index(pre: App, k: Key) -> int {
    if pre.pane == Pane::Country {
        selection_or_zero(pre.countries.state.selected())
    } else {
        selection_or_zero(pre.cities.state.selected())
    }
}

/// Relies on rand's thread-local generator: `gen_range(0..n)` returns a
/// uniformly distributed index below `n`. Nothing more is assumed of the
/// outcome than its bound.
#[verifier::external_body]
fn random_below(n: usize) -> (r: usize)
    requires
        n > 0,
    ensures
        r < n,
{
    rand::thread_rng().gen_range(0..n)
}

/// A copy of a city list, name by name.
fn copy_cities(v: &Vec<City>) -> (r: Vec<City>)
    ensures
        r@ == v@,
{
    let mut r: Vec<City> = Vec::new();
    let mut k: usize = 0;
    while k < v.len()
        invariant
            k <= v@.len(),
            r@.len() == k,
            forall|j: int| 0 <= j < k ==> r@[j] == v@[j],
        decreases v@.len() - k,
    {
        let c = City { name: v[k].name.clone() };
        proof {
            assert(c == v@[k as int]);
        }
        r.push(c);
        k = k + 1;
    }
    proof {
        assert(r@ =~= v@);
    }
    r
}

impl App {
    /// Both cursors are valid and the country list, populated once at
    /// startup, is never empty.
    pub open spec fn wf(&self) -> bool {
        &&& self.countries.wf()
        &&& self.cities.wf()
        &&& self.countries.items@.len() > 0
    }

    /// The initial state: country pane focused, nothing selected, the city
    /// list empty, help hidden.
    pub fn new(nord: Nord) -> (r: App)
        requires
            nord.countries@.len() > 0,
        ensures
            r.wf(),
            r.status == nord.status,
            r.pane == Pane::Country,
            r.countries.items@ == nord.countries@,
            r.countries.state.selected() is None,
            r.cities.items@.len() == 0,
            r.cities.state.selected() is None,
            !r.help,
    {
        App {
            status: nord.status,
            pane: Pane::first(),
            countries: StatefulList::with_items(nord.countries),
            cities: StatefulList::with_items(Vec::new()),
            help: false,
        }
    }

    /// Replace the status snapshot wholesale; nothing else moves.
    pub fn reload_status(&mut self, status: Status)
        ensures
            final(self).status == status,
            final(self).pane == old(self).pane,
            final(self).countries == old(self).countries,
            final(self).cities == old(self).cities,
            final(self).help == old(self).help,
    {
        self.status = status;
    }

    /// Replace the city list with the cities of the country under the
    /// cursor (index 0 when nothing is selected) and clear the city cursor.
    fn reload_cities(&mut self)
        requires
            old(self).wf(),
        ensures
            final(self).wf(),
            final(self).status == old(self).status,
            final(self).pane == old(self).pane,
            final(self).help == old(self).help,
            final(self).countries == old(self).countries,
            final(self).cities.items@ == old(self).countries.items@[selection_or_zero(
                old(self).countries.state.selected(),
            )].cities@,
            final(self).cities.state.selected() is None,
    {
        let idx: usize = match self.countries.state.selected() {
            Some(i) => i,
            None => 0,
        };
        let items = copy_cities(&self.countries.items[idx].cities);
        self.cities = StatefulList::with_items(items);
    }

    /// Advance the focus pane.
    fn next_pane(&mut self)
        ensures
            final(self).pane == pane_toggled(old(self).pane),
            final(self).status == old(self).status,
            final(self).countries == old(self).countries,
            final(self).cities == old(self).cities,
            final(self).help == old(self).help,
    {
        self.pane = self.pane.next();
    }

    /// Retreat the focus pane.
    fn prev_pane(&mut self)
        ensures
            final(self).pane == pane_toggled(old(self).pane),
            final(self).status == old(self).status,
            final(self).countries == old(self).countries,
            final(self).cities == old(self).cities,
            final(self).help == old(self).help,
    {
        self.pane = self.pane.prev();
    }

    /// Apply one key press: update focus, help flag and the two cursors as
    /// the key table prescribes, and return the side effect the caller must
    /// perform. A connect key aimed at an empty city list is an invariant
    /// violation and is excluded, mirroring the original fatal behaviour.
    pub fn handle_key(&mut self, key: Key) -> (a: Action)
        requires
            old(self).wf(),
            is_connect_key(key) && old(self).pane == Pane::City ==> old(
                self,
            ).cities.items@.len() > 0,
        ensures
            final(self).wf(),
            final(self).status == old(self).status,
            final(self).countries.items@ == old(self).countries.items@,
            final(self).help == expected_help(old(self).help, key),
            final(self).pane == expected_pane(old(self).pane, key),
            final(self).countries.state.selected() == expected_country_selection(
                *old(self),
                key,
            ),
            final(self).cities.items@ == expected_cities_items(*old(self), key),
            final(self).cities.state.selected() == expected_cities_selection(*old(self), key),
            is_quit_key(key) ==> (if old(self).help {
                a is Nothing
            } else {
                a is Exit
            }),
            key == Key::Char('r') ==> a is Refresh,
            key == Key::Char('d') ==> a is Disconnect,
            key == Key::Char('R') ==> (a matches Action::Connect(n) && (exists|i: int|
                0 <= i < old(self).countries.items@.len() && n@ == old(
                    self,
                ).countries.items@[i].name@)),
            is_connect_key(key) ==> (a matches Action::Connect(n) && n@ == (if old(self).pane
                == Pane::Country {
                old(self).countries.items@[connect_index(*old(self), key)].name@
            } else {
                old(self).cities.items@[connect_index(*old(self), key)].name@
            })),
            !is_quit_key(key) && !is_connect_key(key) && key != Key::Char('r') && key
                != Key::Char('R') && key != Key::Char('d') ==> a is Nothing,
    {
        let mut action = Action::Nothing;
        match key {
            Key::Char('q') | Key::Esc => {
                if self.help {
                    self.help = false;
                } else {
                    return Action::Exit;
                }
            },
            Key::Char('l') | Key::Right | Key::Tab => self.next_pane(),
            Key::Char('h') | Key::Left => self.prev_pane(),
            Key::Char('r') => {
                action = Action::Refresh;
            },
            Key::Char('R') => {
                let idx = random_below(self.countries.items.len());
                action = Action::Connect(self.countries.items[idx].name.clone());
            },
            Key::Char('c') | Key::Enter => {
                match self.pane {
                    Pane::Country => {
                        let idx: usize = match self.countries.state.selected() {
                            Some(i) => i,
                            None => 0,
                        };
                        action = Action::Connect(self.countries.items[idx].name.clone());
                    },
                    Pane::City => {
                        let idx: usize = match self.cities.state.selected() {
                            Some(i) => i,
                            None => 0,
                        };
                        action = Action::Connect(self.cities.items[idx].name.clone());
                    },
                }
            },
            Key::Char('d') => {
                action = Action::Disconnect;
            },
            Key::Char('?') => {
                self.help = !self.help;
            },
            _ => {},
        }

        match self.pane {
            Pane::Country => {
                match key {
                    Key::Char('j') | Key::Down => {
                        self.countries.next();
                        self.reload_cities();
                    },
                    Key::Char('k') | Key::Up => {
                        self.countries.previous();
                        self.reload_cities();
                    },
                    Key::Char('g') => {
                        self.countries.first();
                        self.reload_cities();
                    },
                    Key::Char('G') => {
                        self.countries.last();
                    },
                    _ => {},
                }
            },
            Pane::City => {
                match key {
                    Key::Char('j') | Key::Down => {
                        self.cities.next();
                    },
                    Key::Char('k') | Key::Up => {
                        self.cities.previous();
                    },
                    Key::Char('g') => {
                        self.countries.first();
                    },
                    Key::Char('G') => {
                        self.countries.last();
                    },
                    _ => {},
                }
            },
        }
        action
    }
}

/// The colour of a rendered panel.
#[derive(PartialEq, Eq, Structural, Clone, Copy, Debug)]
pub enum UiColor {
    Green,
    Red,
    LightCyan,
    Plain,
}

/// The colour of the status label: green exactly when the status string is
/// the literal "Connected", red for every other string — the comparison is
/// exact, with no normalisation.
pub fn status_color(status: &Status) -> (c: UiColor)
    ensures
        c == (if status.status@ == "Connected"@ {
            UiColor::Green
        } else {
            UiColor::Red
        }),
{
    let connected = String::from_str("Connected");
    if status.status.eq(&connected) {
        UiColor::Green
    } else {
        UiColor::Red
    }
}

/// The border colour of a list panel: highlighted exactly when it is the
/// focused pane.
pub fn panel_color(active: Pane, target: Pane) -> (c: UiColor)
    ensures
        c == (if active == target {
            UiColor::LightCyan
        } else {
            UiColor::Plain
        }),
{
    if active == target {
        UiColor::LightCyan
    } else {
        UiColor::Plain
    }
}

} // verus!
