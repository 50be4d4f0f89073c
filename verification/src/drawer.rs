//! The context drawer: which page it shows, and whether each view's drawer is
//! remembered as open.

use vstd::prelude::*;

verus! {

/// A page of the context drawer.
#[derive(Clone, Copy, Debug, PartialEq, Eq, Structural)]
pub enum ContextPage {
    About,
    /// The editing panel for the open detail view.
    Editing,
    /// The metadata of the roll selected in the library.
    RollInfo,
    /// Name, dimensions and basic EXIF of the highlighted frame.
    FrameInfo,
}

impl Default for ContextPage {
    fn default() -> (r: Self)
        ensures
            r == ContextPage::About,
    {
        ContextPage::About
    }
}

/// The three navigational views that own a context drawer.
#[derive(Clone, Copy, Debug, PartialEq, Eq, Structural)]
pub enum DrawerView {
    Library,
    Grid,
    Detail,
}

impl DrawerView {
    /// The drawer page of a view.
    pub open spec fn owned_page(self) -> ContextPage {
        match self {
            DrawerView::Library => ContextPage::RollInfo,
            DrawerView::Grid => ContextPage::FrameInfo,
            DrawerView::Detail => ContextPage::Editing,
        }
    }

    /// The drawer page this view shows.
    pub fn page(self) -> (r: ContextPage)
        ensures
            r == self.owned_page(),
    {
        match self {
            DrawerView::Library => ContextPage::RollInfo,
            DrawerView::Grid => ContextPage::FrameInfo,
            DrawerView::Detail => ContextPage::Editing,
        }
    }
}

/// Whether each view's drawer is open, remembered across navigation.
#[derive(Clone, Copy, Debug, PartialEq, Eq, Structural)]
pub struct DrawerMemory {
    pub library: bool,
    pub grid: bool,
    pub detail: bool,
}

impl DrawerMemory {
    /// What is remembered for a view.
    pub open spec fn of(self, view: DrawerView) -> bool {
        match view {
            DrawerView::Library => self.library,
            DrawerView::Grid => self.grid,
            DrawerView::Detail => self.detail,
        }
    }

    /// The memory with one view's state replaced.
    pub open spec fn with(self, view: DrawerView, open: bool) -> DrawerMemory {
        match view {
            DrawerView::Library => DrawerMemory { library: open, ..self },
            DrawerView::Grid => DrawerMemory { grid: open, ..self },
            DrawerView::Detail => DrawerMemory { detail: open, ..self },
        }
    }

    /// Whether a view's drawer is remembered as open.
    pub fn get(self, view: DrawerView) -> (r: bool)
        ensures
            r == self.of(view),
    {
        match view {
            DrawerView::Library => self.library,
            DrawerView::Grid => self.grid,
            DrawerView::Detail => self.detail,
        }
    }

    /// Remembers a view's drawer as open or closed.
    pub fn set(&mut self, view: DrawerView, open: bool)
        ensures
            *final(self) == old(self).with(view, open),
    {
        match view {
            DrawerView::Library => {
                self.library = open;
            },
            DrawerView::Grid => {
                self.grid = open;
            },
            DrawerView::Detail => {
                self.detail = open;
            },
        }
    }
}

/// The context drawer.
#[derive(Clone, Copy, Debug, PartialEq, Eq, Structural)]
pub struct Drawer {
    pub page: ContextPage,
    pub show: bool,
    pub memory: DrawerMemory,
}

impl Drawer {
    /// The drawer at launch: nothing showing, nothing remembered.
    pub open spec fn at_launch() -> Drawer {
        Drawer {
            page: ContextPage::About,
            show: false,
            memory: DrawerMemory { library: false, grid: false, detail: false },
        }
    }

    /// The drawer at launch.
    pub fn new() -> (r: Self)
        ensures
            r == Self::at_launch(),
    {
        Drawer {
            page: ContextPage::About,
            show: false,
            memory: DrawerMemory { library: false, grid: false, detail: false },
        }
    }

    /// The drawer pointed at a view's page, open where the view remembers it
    /// open and has something to show.
    pub open spec fn restored(self, view: DrawerView, valid: bool) -> Drawer {
        Drawer { page: view.owned_page(), show: self.memory.of(view) && valid, ..self }
    }

    /// Points the drawer at a view's page with the state remembered for it.
    pub fn restore(&mut self, view: DrawerView, valid: bool)
        ensures
            *final(self) == old(self).restored(view, valid),
    {
        self.page = view.page();
        self.show = self.memory.get(view) && valid;
    }

    /// The drawer closed, and remembered as closed for a view.
    pub open spec fn closed(self, view: DrawerView) -> Drawer {
        Drawer { show: false, memory: self.memory.with(view, false), ..self }
    }

    /// Closes the drawer and remembers that for a view.
    pub fn close(&mut self, view: DrawerView)
        ensures
            *final(self) == old(self).closed(view),
    {
        self.show = false;
        self.memory.set(view, false);
    }

    /// The drawer after a page's own close button or menu entry: the menu opens
    /// the transient About page, which gives way to what the view remembers;
    /// a view's page closes.
    pub open spec fn page_toggled(self, page: ContextPage, view: DrawerView, valid: bool) -> Drawer {
        if page == ContextPage::About && self.page != ContextPage::About {
            Drawer { page: ContextPage::About, show: true, ..self }
        } else if self.page == ContextPage::About {
            self.restored(view, valid)
        } else if page == view.owned_page() {
            self.closed(view)
        } else {
            self
        }
    }

    /// Acts on a page's close button or menu entry.
    pub fn toggle_page(&mut self, page: ContextPage, view: DrawerView, valid: bool)
        ensures
            *final(self) == old(self).page_toggled(page, view, valid),
    {
        if page == ContextPage::About && self.page != ContextPage::About {
            self.page = ContextPage::About;
            self.show = true;
        } else if self.page == ContextPage::About {
            self.restore(view, valid);
        } else if page == view.page() {
            self.close(view);
        }
    }

    /// The drawer after the view's own toggle: a showing About page gives way
    /// to what the view remembers, a showing page closes, and a closed drawer
    /// opens where the view has something to show.
    pub open spec fn toggled(self, view: DrawerView, valid: bool) -> Drawer {
        if self.page == ContextPage::About && self.show {
            self.restored(view, valid)
        } else if self.show {
            self.closed(view)
        } else if valid {
            Drawer { page: view.owned_page(), show: true, memory: self.memory.with(view, true) }
        } else if self.page == ContextPage::About {
            Drawer { page: view.owned_page(), ..self }
        } else {
            self
        }
    }

    /// Acts on the view's own toggle; says whether it opened the drawer.
    pub fn toggle(&mut self, view: DrawerView, valid: bool) -> (r: bool)
        ensures
            *final(self) == old(self).toggled(view, valid),
            r == (!old(self).show && valid),
    {
        if self.page == ContextPage::About && self.show {
            self.restore(view, valid);
            return false;
        }
        if self.page == ContextPage::About {
            self.page = view.page();
        }
        if self.show {
            self.close(view);
            return false;
        }
        if !valid {
            return false;
        }
        self.memory.set(view, true);
        self.page = view.page();
        self.show = true;
        true
    }
}

/// Toggling a view's drawer twice brings it back to where it was, as long as
/// it shows that view's page and the view has something to show.
pub proof fn toggling_twice_restores(drawer: Drawer, view: DrawerView)
    requires
        drawer.page == view.owned_page(),
        drawer.memory.of(view) == drawer.show,
    ensures
        drawer.toggled(view, true).toggled(view, true) == drawer,
{
}

/// What one view's drawer does never changes what another view remembers.
pub proof fn drawers_are_remembered_per_view(drawer: Drawer, view: DrawerView, valid: bool, other: DrawerView)
    requires
        other != view,
    ensures
        drawer.toggled(view, valid).memory.of(other) == drawer.memory.of(other),
        drawer.restored(view, valid).memory == drawer.memory,
{
}

} // verus!
