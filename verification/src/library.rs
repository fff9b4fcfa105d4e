//! Library pane state: the view model between a catalog service and the
//! library view.

use std::sync::Arc;

use vstd::prelude::*;

use crate::model::LibraryItem;

verus! {

/// Why a service call failed.
#[derive(Clone, Copy, Debug, PartialEq, Eq, Structural)]
pub enum LibraryServiceErrorKind {
    /// The network request failed.
    Network,
    /// No item has the requested id.
    NotFound,
    /// The session expired; the user has to sign in again.
    NeedsReauth,
    /// Any other failure.
    Unexpected,
}

/// A failed service call.
#[derive(Clone, Debug)]
pub struct LibraryServiceError {
    pub kind: LibraryServiceErrorKind,
    pub message: String,
}

/// A backend the library view reads its catalog from.
pub trait LibraryService {
    /// Fetches the catalog list.
    fn list_items(&self) -> Result<Vec<LibraryItem>, LibraryServiceError>;

    /// Fetches one item by its numeric API id.
    fn get_item(&self, id: u64) -> Result<LibraryItem, LibraryServiceError>;
}

/// Returns `true` when `error` says the session has expired.
pub fn is_needs_reauth(error: &LibraryServiceError) -> (r: bool)
    ensures
        r == (error.kind == LibraryServiceErrorKind::NeedsReauth),
{
    error.kind == LibraryServiceErrorKind::NeedsReauth
}

/// High-level pane state for the library view.
#[derive(Clone, Copy, Debug, Eq, PartialEq, Structural)]
pub enum LibraryPaneState {
    /// List or detail data is being loaded.
    Loading,
    /// List and optional detail content are ready.
    Loaded,
    /// No results are available for the current request.
    Empty,
    /// A recoverable error occurred.
    Error,
}

/// The pane, items and error a list answer leads to, from a pane that was
/// loading with no error: items make it `Loaded`, no items `Empty`, an error
/// `Error` with the error kept and no items.
pub open spec fn list_loaded(
    result: Result<Vec<LibraryItem>, LibraryServiceError>,
    items: Seq<LibraryItem>,
    pane: LibraryPaneState,
    last_error: Option<LibraryServiceError>,
) -> bool {
    match result {
        Ok(v) => {
            &&& items == v@
            &&& pane == if v@.len() == 0 {
                LibraryPaneState::Empty
            } else {
                LibraryPaneState::Loaded
            }
            &&& last_error.is_none()
        },
        Err(e) => {
            &&& items.len() == 0
            &&& pane == LibraryPaneState::Error
            &&& last_error == Some(e)
        },
    }
}

/// The selection, error and pane a detail answer leads to, given the pane
/// before and whether a list was loaded.
pub open spec fn item_applied(
    result: Result<LibraryItem, LibraryServiceError>,
    pane_before: LibraryPaneState,
    had_items: bool,
    selected: Option<LibraryItem>,
    last_error: Option<LibraryServiceError>,
    pane: LibraryPaneState,
) -> bool {
    match result {
        Ok(item) => {
            &&& selected == Some(item)
            &&& last_error.is_none()
            &&& pane == if pane_before == LibraryPaneState::Loading {
                LibraryPaneState::Loaded
            } else {
                pane_before
            }
        },
        Err(error) => {
            &&& selected.is_none()
            &&& last_error == Some(error)
            &&& pane == if error.kind == LibraryServiceErrorKind::NotFound && had_items {
                LibraryPaneState::Loaded
            } else {
                LibraryPaneState::Error
            }
        },
    }
}

/// UI-facing library view model mediating between a service and the view.
pub struct LibraryViewModel<S: LibraryService> {
    service: Arc<S>,
    items: Vec<LibraryItem>,
    selected: Option<LibraryItem>,
    pane: LibraryPaneState,
    last_error: Option<LibraryServiceError>,
}

impl<S: LibraryService> LibraryViewModel<S> {
    /// The backing service.
    pub closed spec fn spec_service(&self) -> S {
        *self.service
    }

    /// The loaded list items.
    pub closed spec fn spec_items(&self) -> Seq<LibraryItem> {
        self.items@
    }

    /// The selected detail item.
    pub closed spec fn spec_selected(&self) -> Option<LibraryItem> {
        self.selected
    }

    /// The pane state.
    pub closed spec fn spec_pane(&self) -> LibraryPaneState {
        self.pane
    }

    /// The most recent recoverable error.
    pub closed spec fn spec_last_error(&self) -> Option<LibraryServiceError> {
        self.last_error
    }

    /// The state of a view model that has not loaded anything yet.
    pub open spec fn is_fresh(&self) -> bool {
        &&& self.spec_items().len() == 0
        &&& self.spec_selected().is_none()
        &&& self.spec_pane() == LibraryPaneState::Loading
        &&& self.spec_last_error().is_none()
    }

    /// Creates a view model over `service`, in the loading state.
    pub fn new(service: S) -> (vm: Self)
        ensures
            vm.is_fresh(),
            vm.spec_service() == service,
    {
        LibraryViewModel {
            service: Arc::new(service),
            items: Vec::new(),
            selected: None,
            pane: LibraryPaneState::Loading,
            last_error: None,
        }
    }

    /// Returns a shared handle on the service, for background tasks.
    pub fn service_arc(&self) -> (s: Arc<S>)
        ensures
            *s == self.spec_service(),
    {
        shared(&self.service)
    }

    /// Replaces the backing service and resets the pane for a fresh load.
    pub fn replace_service(&mut self, service: S)
        ensures
            final(self).is_fresh(),
            final(self).spec_service() == service,
    {
        self.service = Arc::new(service);
        self.items = Vec::new();
        self.selected = None;
        self.pane = LibraryPaneState::Loading;
        self.last_error = None;
    }

    /// Returns the current pane state.
    pub fn pane_state(&self) -> (p: &LibraryPaneState)
        ensures
            *p == self.spec_pane(),
    {
        &self.pane
    }

    /// Returns the loaded list items.
    pub fn items(&self) -> (items: &[LibraryItem])
        ensures
            items@ == self.spec_items(),
    {
        self.items.as_slice()
    }

    /// Returns the selected detail item, if one is loaded.
    pub fn selected(&self) -> (item: Option<&LibraryItem>)
        ensures
            item.is_some() == self.spec_selected().is_some(),
            item matches Some(i) ==> Some(*i) == self.spec_selected(),
    {
        self.selected.as_ref()
    }

    /// Returns the most recent recoverable error.
    pub fn last_error(&self) -> (e: Option<&LibraryServiceError>)
        ensures
            e.is_some() == self.spec_last_error().is_some(),
            e matches Some(err) ==> Some(*err) == self.spec_last_error(),
    {
        self.last_error.as_ref()
    }

    /// Applies a fetched list result: an empty list makes the pane `Empty`, a
    /// non-empty one `Loaded`, an error `Error` with the error kept; the
    /// selection is cleared in every case.
    pub fn apply_list_result(&mut self, result: Result<Vec<LibraryItem>, LibraryServiceError>)
        ensures
            final(self).spec_service() == old(self).spec_service(),
            final(self).spec_selected().is_none(),
            match result {
                Ok(items) => {
                    &&& final(self).spec_items() == items@
                    &&& final(self).spec_pane() == if items@.len() == 0 {
                        LibraryPaneState::Empty
                    } else {
                        LibraryPaneState::Loaded
                    }
                    &&& final(self).spec_last_error() == old(self).spec_last_error()
                },
                Err(error) => {
                    &&& final(self).spec_items().len() == 0
                    &&& final(self).spec_pane() == LibraryPaneState::Error
                    &&& final(self).spec_last_error() == Some(error)
                },
            },
    {
        match result {
            Ok(items) => {
                if items.len() == 0 {
                    self.items = Vec::new();
                    self.selected = None;
                    self.pane = LibraryPaneState::Empty;
                    proof {
                        assert(self.items@ =~= items@);
                    }
                } else {
                    self.items = items;
                    self.selected = None;
                    self.pane = LibraryPaneState::Loaded;
                }
            },
            Err(error) => {
                self.items = Vec::new();
                self.selected = None;
                self.last_error = Some(error);
                self.pane = LibraryPaneState::Error;
            },
        }
    }

    /// Loads the list from the service and updates the pane by the outcome:
    /// afterwards the pane is `Loaded` with items, `Empty` without, or `Error`
    /// with the error kept, and nothing is selected.
    pub fn load_list(&mut self)
        ensures
            final(self).spec_service() == old(self).spec_service(),
            final(self).spec_selected().is_none(),
            final(self).spec_pane() == LibraryPaneState::Loaded || final(self).spec_pane()
                == LibraryPaneState::Empty || final(self).spec_pane() == LibraryPaneState::Error,
            final(self).spec_pane() == LibraryPaneState::Loaded ==> final(self).spec_items().len()
                > 0 && final(self).spec_last_error().is_none(),
            final(self).spec_pane() == LibraryPaneState::Empty ==> final(self).spec_items().len()
                == 0 && final(self).spec_last_error().is_none(),
            final(self).spec_pane() == LibraryPaneState::Error ==> final(self).spec_items().len()
                == 0 && final(self).spec_last_error().is_some(),
            exists|result: Result<Vec<LibraryItem>, LibraryServiceError>|
                call_ensures(S::list_items, (&old(self).spec_service(),), result) && list_loaded(
                    result,
                    final(self).spec_items(),
                    final(self).spec_pane(),
                    final(self).spec_last_error(),
                ),
    {
        self.pane = LibraryPaneState::Loading;
        self.last_error = None;
        let result = self.service.list_items();
        let ghost answer = result;
        self.apply_list_result(result);
        assert(call_ensures(S::list_items, (&old(self).spec_service(),), answer));
        assert(list_loaded(answer, self.spec_items(), self.spec_pane(), self.spec_last_error()));
    }

    /// Reloads the list, exactly as the initial load does.
    pub fn refresh(&mut self)
        ensures
            final(self).spec_service() == old(self).spec_service(),
            final(self).spec_selected().is_none(),
            final(self).spec_pane() == LibraryPaneState::Loaded || final(self).spec_pane()
                == LibraryPaneState::Empty || final(self).spec_pane() == LibraryPaneState::Error,
            final(self).spec_pane() == LibraryPaneState::Loaded ==> final(self).spec_items().len()
                > 0 && final(self).spec_last_error().is_none(),
            final(self).spec_pane() == LibraryPaneState::Empty ==> final(self).spec_items().len()
                == 0 && final(self).spec_last_error().is_none(),
            final(self).spec_pane() == LibraryPaneState::Error ==> final(self).spec_items().len()
                == 0 && final(self).spec_last_error().is_some(),
            exists|result: Result<Vec<LibraryItem>, LibraryServiceError>|
                call_ensures(S::list_items, (&old(self).spec_service(),), result) && list_loaded(
                    result,
                    final(self).spec_items(),
                    final(self).spec_pane(),
                    final(self).spec_last_error(),
                ),
    {
        self.load_list();
    }

    /// Applies a fetched detail result: on success the item is selected and a
    /// loading pane becomes `Loaded`; on failure the selection is cleared, the
    /// error kept, and the pane stays `Loaded` for a `NotFound` over a loaded
    /// list, else turns `Error`.
    pub fn apply_item_result(&mut self, result: Result<LibraryItem, LibraryServiceError>)
        ensures
            final(self).spec_service() == old(self).spec_service(),
            final(self).spec_items() == old(self).spec_items(),
            match result {
                Ok(item) => {
                    &&& final(self).spec_selected() == Some(item)
                    &&& final(self).spec_last_error().is_none()
                    &&& final(self).spec_pane() == if old(self).spec_pane()
                        == LibraryPaneState::Loading {
                        LibraryPaneState::Loaded
                    } else {
                        old(self).spec_pane()
                    }
                },
                Err(error) => {
                    &&& final(self).spec_selected().is_none()
                    &&& final(self).spec_last_error() == Some(error)
                    &&& final(self).spec_pane() == if error.kind
                        == LibraryServiceErrorKind::NotFound && old(self).spec_items().len() > 0 {
                        LibraryPaneState::Loaded
                    } else {
                        LibraryPaneState::Error
                    }
                },
            },
    {
        self.last_error = None;
        match result {
            Ok(item) => {
                self.selected = Some(item);
                if self.pane == LibraryPaneState::Loading {
                    self.pane = LibraryPaneState::Loaded;
                }
            },
            Err(error) => {
                self.selected = None;
                let kind = error.kind;
                self.last_error = Some(error);
                self.pane = if kind == LibraryServiceErrorKind::NotFound && self.items.len() > 0 {
                    LibraryPaneState::Loaded
                } else {
                    LibraryPaneState::Error
                };
            },
        }
    }

    /// Loads detail for the item with numeric API id `id` from the service;
    /// the outcome is applied as `apply_item_result` describes.
    pub fn select_item(&mut self, id: u64)
        ensures
            final(self).spec_service() == old(self).spec_service(),
            final(self).spec_items() == old(self).spec_items(),
            final(self).spec_selected().is_some() <==> final(self).spec_last_error().is_none(),
            final(self).spec_selected().is_some() ==> final(self).spec_pane() == if old(
                self,
            ).spec_pane() == LibraryPaneState::Loading {
                LibraryPaneState::Loaded
            } else {
                old(self).spec_pane()
            },
            final(self).spec_selected().is_none() ==> (final(self).spec_pane()
                == LibraryPaneState::Loaded || final(self).spec_pane() == LibraryPaneState::Error),
            exists|result: Result<LibraryItem, LibraryServiceError>|
                call_ensures(S::get_item, (&old(self).spec_service(), id), result) && item_applied(
                    result,
                    old(self).spec_pane(),
                    old(self).spec_items().len() > 0,
                    final(self).spec_selected(),
                    final(self).spec_last_error(),
                    final(self).spec_pane(),
                ),
    {
        let result = self.service.get_item(id);
        let ghost answer = result;
        self.apply_item_result(result);
        assert(call_ensures(S::get_item, (&old(self).spec_service(), id), answer));
        assert(item_applied(
            answer,
            old(self).spec_pane(),
            old(self).spec_items().len() > 0,
            self.spec_selected(),
            self.spec_last_error(),
            self.spec_pane(),
        ));
    }
}

/// A second handle on a shared value (std's `Arc::clone`): it points at the
/// same value.
#[verifier::external_body]
fn shared<T>(a: &Arc<T>) -> (r: Arc<T>)
    ensures
        *r == **a,
{
    Arc::clone(a)
}

} // verus!
