//! Typed command protocol for a USB-serial LED matrix panel.
//!
//! A [`LedMatrix`] drives one panel, or a group of panels as one,
//! over any [`Transport`]. Every operation is one frame written to
//! each panel in turn, optionally followed by one reply read from
//! each. The contracts speak of the history of each port: the
//! requests made of its link, in order, with what the link answered.
//! They hold whatever a link answers; nothing is assumed of it.
//!
//! - [`codec`]: the frame of each operation and the reading of replies.
//! - [`transport`]: the link to a panel and the record of its use.
//! - [`fanout`]: what a request made of every port does to the histories.
//! - [`led_matrix`]: the handle and its operations.
//! - [`discovery`]: the panels among the host's serial endpoints.
//! - [`error`]: the failures and their messages.
//! - [`label`]: the label of a handle.
//! - [`panel`]: a model of the panel's firmware and a panel held in memory.
//! - [`matrix`]: opening at a brightness, clearing, and drawing icons.
//! - [`instances`], [`verbosity`]: what a command-line program around
//!   the handle decides from the process table and from its switches.

use vstd::prelude::*;

pub mod codec;
pub mod discovery;
pub mod error;
pub mod fanout;
pub mod instances;
pub mod label;
pub mod led_matrix;
pub mod matrix;
pub mod panel;
pub mod transport;
pub mod verbosity;

use crate::discovery::{listed_panels, lists, Endpoint};
use crate::transport::may_list;

pub use crate::error::Error;
pub use crate::led_matrix::LedMatrix;
pub use crate::transport::Transport;

verus! {

/// Whether `names` is what some listing gives that the host of the
/// links `T` may answer with: the names of the panels in it, in its
/// order, or the failure of the host.
pub open spec fn names_panels<T: Transport>(names: Result<Vec<String>, Error>) -> bool {
    exists|listing: Result<Vec<Endpoint>, Error>| #[trigger]
        may_list::<T>(listing) && lists(listing, names)
}

/// Asks the host for its endpoints and returns the names of the
/// panels among them, in the host's order: what
/// `discovery::listed_panels` makes of the host's answer. An empty
/// list is no failure; a host that cannot be asked is, and its
/// failure is returned as it is. The host is asked once and not again
/// after a failure; the asking leaves no record, so the contract does
/// not tell one attempt from several.
pub fn get_device_names<T: Transport>() -> (names: Result<Vec<String>, Error>)
    ensures
        names_panels::<T>(names),
{
    let listing = T::endpoints();
    let ghost answer = listing;
    let names = listed_panels(listing);
    assert(may_list::<T>(answer) && lists(answer, names));
    names
}

} // verus!
