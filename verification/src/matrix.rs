//! What a program that shows a picture for a while asks of the panels.

use vstd::prelude::*;
use crate::codec::Command;
use crate::error::Error;
use crate::discovery::{panel_names_of, Endpoint};
use crate::fanout::{delivered, fanned, Request};
use crate::led_matrix::{just_opened, opens_each, opens_listed, LedMatrix};
use crate::transport::{fault, may_list, Exchange, Transport};

pub mod patterns;

verus! {

/// Whether a history is that of a port that was opened and then set
/// to the given brightness, and nothing else.
pub open spec fn opened_at(history: Seq<Exchange>, brightness: u8) -> bool {
    &&& history.len() == 3
    &&& just_opened(history.take(1))
    &&& history == delivered(history.take(1), Command::SetBrightness(brightness).frame())
}

/// Whether `opening` is what setting the brightness of the freshly
/// opened group `fresh` gives: `set` is the group after the frame was
/// sent to its ports in order, and `opening` is `set` if every port
/// took the frame, else the failure of the first port that did not.
pub open spec fn dimmed<T: Transport>(
    paths: Seq<Seq<char>>,
    brightness: u8,
    fresh: LedMatrix<T>,
    set: LedMatrix<T>,
    opening: Result<LedMatrix<T>, Error>,
) -> bool {
    &&& opens_each(paths, Ok(fresh))
    &&& set.same_shape(&fresh)
    &&& fanned(
        fresh.histories(),
        set.histories(),
        Request::Send(Command::SetBrightness(brightness).frame()),
        fault(opening),
    )
    &&& opening matches Ok(matrix) ==> matrix == set
}

/// Whether `opening` is what opening the panels of `listing` and
/// setting their brightness gives: the failure of the host if it
/// could not be asked; the failure of the first panel that could not
/// be opened; else what setting the brightness of the opened group
/// gives.
pub open spec fn opens_at<T: Transport>(
    listing: Result<Vec<Endpoint>, Error>,
    brightness: u8,
    opening: Result<LedMatrix<T>, Error>,
) -> bool {
    match listing {
        Err(failure) => opening matches Err(e) && e == failure,
        Ok(endpoints) => {
            ||| opening matches Err(e) && opens_each::<T>(panel_names_of(endpoints@), Err(e))
            ||| exists|fresh: LedMatrix<T>, set: LedMatrix<T>| #[trigger]
                dimmed(panel_names_of(endpoints@), brightness, fresh, set, opening)
        },
    }
}

/// Whether `opening` is what opening the panels of some listing and
/// setting their brightness gives, for a listing that the host may
/// answer with.
pub open spec fn opens_all_at<T: Transport>(
    brightness: u8,
    opening: Result<LedMatrix<T>, Error>,
) -> bool {
    exists|listing: Result<Vec<Endpoint>, Error>| #[trigger]
        may_list::<T>(listing) && opens_at(listing, brightness, opening)
}

/// Asks the host for its endpoints, opens every panel among them and
/// sets the brightness of each, in the host's order. The first
/// failure ends it and is returned as it is: that of the host, of a
/// panel that cannot be opened, or of a port that does not take the
/// frame. Nothing is asked a second time; of the host and of a panel
/// that refuses to open no record is kept, so there the contract does
/// not tell one attempt from several.
pub fn open<T: Transport>(brightness: u8) -> (opening: Result<LedMatrix<T>, Error>)
    ensures
        opens_all_at(brightness, opening),
        opening matches Ok(matrix) ==> {
            &&& matrix is Collection
            &&& forall|i: int|
                0 <= i < matrix.ports().len() ==> opened_at(
                    #[trigger] matrix.histories()[i],
                    brightness,
                )
        },
{
    let opened = LedMatrix::<T>::open_all();
    let ghost listing = choose|listing: Result<Vec<Endpoint>, Error>| #[trigger]
        may_list::<T>(listing) && opens_listed(listing, opened);
    let ghost paths = if listing is Ok {
        panel_names_of(listing->Ok_0@)
    } else {
        Seq::empty()
    };
    let mut matrix = match opened {
        Ok(matrix) => matrix,
        Err(e) => {
            assert(may_list::<T>(listing) && opens_at(
                listing,
                brightness,
                Err::<LedMatrix<T>, Error>(e),
            ));
            return Err(e);
        },
    };
    let ghost fresh = matrix;
    let ghost before = matrix.histories();
    match matrix.set_brightness(brightness) {
        Ok(()) => {},
        Err(e) => {
            assert(dimmed(paths, brightness, fresh, matrix, Err::<LedMatrix<T>, Error>(e)));
            assert(may_list::<T>(listing) && opens_at(
                listing,
                brightness,
                Err::<LedMatrix<T>, Error>(e),
            ));
            return Err(e);
        },
    }
    proof {
        let frame = Command::SetBrightness(brightness).frame();
        assert forall|i: int| 0 <= i < matrix.ports().len() implies opened_at(
            #[trigger] matrix.histories()[i],
            brightness,
        ) by {
            assert(just_opened(before[i]));
            assert(matrix.histories()[i] == delivered(before[i], frame));
            assert(matrix.histories()[i].take(1) =~= before[i]);
        }
        assert(dimmed(paths, brightness, fresh, matrix, Ok::<LedMatrix<T>, Error>(matrix)));
        assert(may_list::<T>(listing) && opens_at(
            listing,
            brightness,
            Ok::<LedMatrix<T>, Error>(matrix),
        ));
    }
    Ok(matrix)
}

/// Clears every panel: fills it to 0 percent.
pub fn reset<T: Transport>(matrix: &mut LedMatrix<T>) -> (result: Result<(), Error>)
    ensures
        old(matrix).sends(final(matrix), Command::Percent(0).frame(), result),
{
    matrix.percent(0)
}

} // verus!
