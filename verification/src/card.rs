use vstd::prelude::*;
use vstd::string::*;

use crate::event::{Event, select_package_name};
use crate::package_info::PackageInfo;

verus! {

/// The label of a card's add button: `Unselect` on a selected card, `Add` otherwise.
pub open spec fn button_label_text(is_added: bool) -> Seq<char> {
    if is_added {
        "Unselect"@
    } else {
        "Add"@
    }
}

/// How a card's add button looks: its label, and whether it carries the `suggested-action` style
/// (only when the package is not selected).
#[derive(Debug, Clone)]
pub struct ButtonLook {
    pub label: String,
    pub suggested: bool,
}

/// What a click on a card's add button does: how the button now looks, and the event sent to
/// the main window.
#[derive(Debug, Clone)]
pub struct CardClick {
    pub look: ButtonLook,
    pub event: Event,
}

/// Where a card's icon comes from.
#[derive(Debug, Clone)]
pub enum IconChoice {
    /// Download the image at this address (a failed download shows the fallback icon).
    Download(String),
    /// Show this icon of the icon theme.
    Named(String),
}

/// The icon shown when a package has no icon of its own, or its icon cannot be fetched.
pub open spec fn fallback_icon() -> Seq<char> {
    "application-x-executable-symbolic"@
}

/// The icon theme name used when a package's icon is missing or cannot be fetched.
pub fn fallback_icon_name() -> (s: String)
    ensures
        s@ == fallback_icon(),
{
    String::from_str("application-x-executable-symbolic")
}

/// Where the icon of a package with optional icon address `icon` comes from.
pub fn icon_choice(icon: &Option<String>) -> (c: IconChoice)
    ensures
        match *icon {
            Some(url) => c matches IconChoice::Download(u) && u@ == url@,
            None => c matches IconChoice::Named(n) && n@ == fallback_icon(),
        },
{
    match icon {
        Some(url) => IconChoice::Download(url.clone()),
        None => IconChoice::Named(fallback_icon_name()),
    }
}

/// How the add button looks on a card that is (or is not) selected.
pub fn button_look(is_added: bool) -> (b: ButtonLook)
    ensures
        b.label@ == button_label_text(is_added),
        b.suggested == !is_added,
{
    if is_added {
        ButtonLook { label: String::from_str("Unselect"), suggested: false }
    } else {
        ButtonLook { label: String::from_str("Add"), suggested: true }
    }
}

/// What a card shows of its package: the name as title, the description, and the icon.
#[derive(Debug, Clone)]
pub struct CardView {
    pub title: String,
    pub description: String,
    pub icon: IconChoice,
}

/// A package card: whether its package is added to the selection.
#[derive(Debug, Clone, Copy)]
pub struct Card {
    pub is_added: bool,
}

impl Card {
    /// A new card for `package`: not added, showing the package's name, description and icon.
    pub fn new(package: &PackageInfo) -> (r: (Card, CardView))
        ensures
            !r.0.is_added,
            r.1.title@ == package.name@,
            r.1.description@ == package.description@,
            match package.icon {
                Some(url) => r.1.icon matches IconChoice::Download(u) && u@ == url@,
                None => r.1.icon matches IconChoice::Named(n) && n@ == fallback_icon(),
            },
    {
        let mut card = Card { is_added: false };
        let view = card.show(package);
        (card, view)
    }

    /// Shows `package` on the card: the card is reset to not added, and shows the package's
    /// name, description and icon.
    pub fn show(&mut self, package: &PackageInfo) -> (v: CardView)
        ensures
            !final(self).is_added,
            v.title@ == package.name@,
            v.description@ == package.description@,
            match package.icon {
                Some(url) => v.icon matches IconChoice::Download(u) && u@ == url@,
                None => v.icon matches IconChoice::Named(n) && n@ == fallback_icon(),
            },
    {
        self.is_added = false;
        CardView {
            title: package.name.clone(),
            description: package.description.clone(),
            icon: icon_choice(&package.icon),
        }
    }

    /// A click on the add button: the card flips between added and not added, the button shows
    /// the new state, and the main window is asked to toggle the package.
    pub fn on_add_btn_clicked(&mut self, package_id: &String) -> (click: CardClick)
        ensures
            final(self).is_added == !old(self).is_added,
            click.look.label@ == button_label_text(final(self).is_added),
            click.look.suggested == !final(self).is_added,
            click.event.name@ == select_package_name(),
            click.event.package_id@ == package_id@,
    {
        let current: bool = self.is_added;
        self.is_added = !current;
        let look = button_look(!current);
        let event = Event::select_package(package_id.clone());
        CardClick { look, event }
    }

    /// Shows the card as selected or not, as the main window does after a change of the selection.
    pub fn set_selected(&mut self, selected: bool) -> (look: ButtonLook)
        ensures
            final(self).is_added == selected,
            look.label@ == button_label_text(selected),
            look.suggested == !selected,
    {
        self.is_added = selected;
        button_look(selected)
    }
}

} // verus!
