//! Finding the panels among the serial endpoints of the host.

use vstd::prelude::*;
use crate::error::Error;

verus! {

/// USB vendor identifier of the panel.
pub const FRAMEWORK_VENDOR_ID: u16 = 12972;

/// USB product identifier of the panel.
pub const LED_MATRIX_PRODUCT_ID: u16 = 32;

/// How a serial endpoint is attached to the host.
#[derive(Clone, Copy, Debug, PartialEq, Eq)]
pub enum Bus {
    /// Over USB, with the identifiers that the device reports.
    Usb { vid: u16, pid: u16 },
    Pci,
    Bluetooth,
    Unknown,
}

/// A serial endpoint as the host lists it.
#[derive(Clone, Debug, PartialEq, Eq)]
pub struct Endpoint {
    pub name: String,
    pub bus: Bus,
}

impl Endpoint {
    /// Whether the endpoint is a panel: attached over USB and
    /// reporting the panel's vendor and product identifiers.
    pub open spec fn is_panel(&self) -> bool {
        self.bus == (Bus::Usb { vid: FRAMEWORK_VENDOR_ID, pid: LED_MATRIX_PRODUCT_ID })
    }
}

/// The name of an endpoint if it is a panel.
pub open spec fn panel_name(endpoint: Endpoint) -> Option<Seq<char>> {
    if endpoint.is_panel() {
        Some(endpoint.name@)
    } else {
        None
    }
}

/// The names of the panels among `endpoints`, in the order of `endpoints`.
pub open spec fn panel_names_of(endpoints: Seq<Endpoint>) -> Seq<Seq<char>> {
    endpoints.filter_map(|endpoint: Endpoint| panel_name(endpoint))
}

/// The characters of each name of `names`.
pub open spec fn texts(names: Seq<String>) -> Seq<Seq<char>> {
    Seq::new(names.len(), |i: int| names[i]@)
}

/// Keeps the endpoints that are panels and returns their names, in
/// the order in which the host listed them.
pub fn panel_names(endpoints: &Vec<Endpoint>) -> (names: Vec<String>)
    ensures
        texts(names@) == panel_names_of(endpoints@),
{
    let mut names: Vec<String> = Vec::new();
    let n = endpoints.len();
    let mut i: usize = 0;
    assert(endpoints@.take(0) =~= Seq::<Endpoint>::empty());
    while i < n
        invariant
            i <= n,
            n == endpoints.len(),
            texts(names@) == panel_names_of(endpoints@.take(i as int)),
        decreases n - i,
    {
        let endpoint = &endpoints[i];
        proof {
            endpoints@.lemma_filter_map_take_succ(|endpoint: Endpoint| panel_name(endpoint), i as int);
        }
        let ghost earlier = names@;
        match endpoint.bus {
            Bus::Usb { vid, pid } => {
                if vid == FRAMEWORK_VENDOR_ID && pid == LED_MATRIX_PRODUCT_ID {
                    names.push(endpoint.name.clone());
                    assert(texts(names@) =~= texts(earlier).push(endpoint.name@));
                }
            },
            _ => {},
        }
        i += 1;
    }
    assert(endpoints@.take(n as int) =~= endpoints@);
    names
}

/// What a listing of the host gives: the names of the panels in it,
/// or the failure of the host as it is.
pub open spec fn listed(listing: Result<Vec<Endpoint>, Error>) -> Result<Seq<Seq<char>>, Error> {
    match listing {
        Ok(endpoints) => Ok(panel_names_of(endpoints@)),
        Err(e) => Err(e),
    }
}

/// Whether `names` is what `listing` gives: the names of its
/// panels, in its order, or its failure.
pub open spec fn lists(
    listing: Result<Vec<Endpoint>, Error>,
    names: Result<Vec<String>, Error>,
) -> bool {
    match names {
        Ok(names) => listed(listing) == Ok::<Seq<Seq<char>>, Error>(texts(names@)),
        Err(e) => listed(listing) == Err::<Seq<Seq<char>>, Error>(e),
    }
}

/// The names of the panels in a listing of the host. A host that
/// could not be asked gives its failure; a listing without a panel
/// gives an empty list, which is no failure.
pub fn listed_panels(listing: Result<Vec<Endpoint>, Error>) -> (names: Result<Vec<String>, Error>)
    ensures
        lists(listing, names),
{
    match listing {
        Ok(endpoints) => Ok(panel_names(&endpoints)),
        Err(e) => Err(e),
    }
}

} // verus!
