//! The user's settings, and what they mean for the link.

use vstd::prelude::*;

use crate::arbiter::Layout;
use crate::text::{same_text, trim, trimmed};

verus! {

/// The user's settings.
#[derive(Debug, Clone)]
pub struct Settings {
    /// What this machine is called.
    pub name: String,
    /// The address of the peer.
    pub peer_ip: String,
    /// On which side the peer stands: `left` or `right`.
    pub layout: String,
    pub clipboard_enabled: bool,
    pub autostart: bool,
    /// Whether the cursor crosses over; on unless it was switched off.
    pub cross_screen_enabled: bool,
}

/// What a switch is that was never set and is on by default.
pub fn default_true() -> (r: bool)
    ensures
        r,
{
    true
}

impl Default for Settings {
    fn default() -> (s: Self)
        ensures
            s.name@ == Seq::<char>::empty(),
            s.peer_ip@ == Seq::<char>::empty(),
            s.layout@ == Seq::<char>::empty(),
            !s.clipboard_enabled,
            !s.autostart,
            s.cross_screen_enabled,
    {
        Settings {
            name: String::new(),
            peer_ip: String::new(),
            layout: String::new(),
            clipboard_enabled: false,
            autostart: false,
            cross_screen_enabled: default_true(),
        }
    }
}

/// What the settings mean for the link.
#[derive(Debug)]
pub enum LinkPlan {
    /// There is no peer.
    Off,
    /// Connect to the peer at `ip` under the name `name`; without an arrangement of
    /// the screens the cursor does not cross over.
    On { ip: String, name: String, layout: Option<Layout> },
}

/// What the settings mean for the link.
pub enum LinkPlanView {
    Off,
    On { ip: Seq<char>, name: Seq<char>, layout: Option<Layout> },
}

impl View for LinkPlan {
    type V = LinkPlanView;

    open spec fn view(&self) -> LinkPlanView {
        match self {
            LinkPlan::Off => LinkPlanView::Off,
            LinkPlan::On { ip, name, layout } => LinkPlanView::On {
                ip: ip@,
                name: name@,
                layout: *layout,
            },
        }
    }
}

/// How the screens are arranged: the peer is on the right unless it is on the left.
pub open spec fn layout_named(s: Seq<char>) -> Layout {
    if s == "left"@ { Layout::PeerLeft } else { Layout::PeerRight }
}

/// What the settings mean for the link: without an address there is none; a machine
/// without a name is called `ruiss`.
pub open spec fn planned(s: Settings) -> LinkPlanView {
    let ip = trimmed(s.peer_ip@);
    let name = trimmed(s.name@);
    if ip.len() == 0 {
        LinkPlanView::Off
    } else {
        LinkPlanView::On {
            ip,
            name: if name.len() == 0 {
                "ruiss"@
            } else {
                name
            },
            layout: if s.cross_screen_enabled {
                Some(layout_named(s.layout@))
            } else {
                None
            },
        }
    }
}

/// Works out what the settings mean for the link.
pub fn link_plan(s: &Settings) -> (plan: LinkPlan)
    ensures
        plan@ == planned(*s),
{
    let ip = trim(&s.peer_ip);
    if ip.as_str().is_empty() {
        return LinkPlan::Off;
    }
    let own = trim(&s.name);
    let name: String = if own.as_str().is_empty() {
        "ruiss".to_owned()
    } else {
        own
    };
    let layout: Option<Layout> = if s.cross_screen_enabled {
        if same_text(&s.layout, "left") {
            Some(Layout::PeerLeft)
        } else {
            Some(Layout::PeerRight)
        }
    } else {
        None
    };
    LinkPlan::On { ip, name, layout }
}

/// There is a link exactly where an address is given that is more than white space. It
/// goes to that address, without the white space around it.
pub proof fn law_link_goes_to_the_given_address(s: Settings)
    ensures
        planned(s) is Off <==> trimmed(s.peer_ip@).len() == 0,
        planned(s) matches LinkPlanView::On { ip, .. } ==> ip == trimmed(s.peer_ip@),
{
}

/// The machine goes by the name that it was given, without the white space around it; one
/// without a name is called `ruiss`. The other settings do not change that.
pub proof fn law_machine_goes_by_its_name(s: Settings, ip: Seq<char>, name: Seq<char>)
    requires
        planned(s) matches LinkPlanView::On { ip: i, name: n, layout: _ } && i == ip && n == name,
    ensures
        trimmed(s.name@).len() > 0 ==> name == trimmed(s.name@),
        trimmed(s.name@).len() == 0 ==> name == "ruiss"@,
{
}

/// The cursor crosses over exactly where that is not switched off, to the left where the
/// peer was placed on the left and to the right for any other word.
pub proof fn law_peer_stands_where_it_was_placed(s: Settings)
    ensures
        planned(s) matches LinkPlanView::On { layout, .. } ==> {
            &&& layout is Some <==> s.cross_screen_enabled
            &&& s.cross_screen_enabled && s.layout@ == "left"@ ==> layout == Some(Layout::PeerLeft)
            &&& s.cross_screen_enabled && s.layout@ != "left"@ ==> layout == Some(
                Layout::PeerRight,
            )
        },
{
}

} // verus!
