//! The pager's state machine and the interface state that holds it.
use vstd::prelude::*;

use crate::fetcher::{lemma_len_fits, Collector, Fetcher, FetcherError};
use crate::lines::{
    renders, window_of, window_open, window_reads, CollectedLines, LinesCollector, RecordFormatter,
};

verus! {

/// The screen that the interface shows.
#[derive(Debug, Clone, Copy, PartialEq, Eq, Structural)]
pub enum Screen {
    Pager,
    Help,
}

impl Default for Screen {
    fn default() -> (r: Self)
        ensures
            r == Screen::Pager,
    {
        Screen::Pager
    }
}

/// The end at which the pager anchors its window: the top record when scrolling up,
/// the bottom record when scrolling down.
#[derive(Debug, Clone, Copy, PartialEq, Eq, Structural)]
pub enum ScrollMode {
    ScrollUp,
    ScrollDown,
}

impl Default for ScrollMode {
    fn default() -> (r: Self)
        ensures
            r == ScrollMode::ScrollUp,
    {
        ScrollMode::ScrollUp
    }
}

/// The pager's view: the lines on screen, the records from `top_index` up to (not
/// including) `bottom_index` that they come from, whether the last render cut a
/// record, and the scroll mode.
pub struct PagerState {
    pub lines: Vec<String>,
    pub top_index: usize,
    pub bottom_index: usize,
    pub has_cropped_items: bool,
    pub scroll_mode: ScrollMode,
}

impl Default for PagerState {
    fn default() -> (r: Self)
        ensures
            r.lines@.len() == 0,
            r.top_index == 0,
            r.bottom_index == 0,
            !r.has_cropped_items,
            r.scroll_mode == ScrollMode::ScrollUp,
    {
        PagerState {
            lines: Vec::new(),
            top_index: 0,
            bottom_index: 0,
            has_cropped_items: false,
            scroll_mode: ScrollMode::ScrollUp,
        }
    }
}

/// The lines of a terminal of `height` rows that remain for records: two rows hold
/// the status line and the help line.
pub open spec fn usable_height(height: usize) -> usize {
    if height > 2 {
        (height - 2) as usize
    } else {
        0
    }
}

/// What a render showed, as the windower reports it.
pub open spec fn shown(s: PagerState) -> CollectedLines {
    CollectedLines {
        lines: s.lines,
        items_count: (s.bottom_index - s.top_index) as usize,
        has_cropped_items: s.has_cropped_items,
    }
}

impl PagerState {
    /// Scrolls up: moves the top record up by one (not above the first), unless the
    /// last render scrolled down and cut a record, which this first shows whole.
    pub fn scroll_up(&mut self)
        ensures
            final(self).top_index == if old(self).scroll_mode == ScrollMode::ScrollUp
                || !old(self).has_cropped_items {
                if old(self).top_index > 0 {
                    old(self).top_index - 1
                } else {
                    0
                }
            } else {
                old(self).top_index as int
            },
            final(self).scroll_mode == ScrollMode::ScrollUp,
            final(self).bottom_index == old(self).bottom_index,
            final(self).has_cropped_items == old(self).has_cropped_items,
            final(self).lines == old(self).lines,
    {
        if self.scroll_mode == ScrollMode::ScrollUp || !self.has_cropped_items {
            if self.top_index > 0 {
                self.top_index = self.top_index - 1;
            }
        }
        self.scroll_mode = ScrollMode::ScrollUp;
    }

    /// Scrolls down: moves the bottom record down by one, unless the last render
    /// scrolled up and cut a record, which this first shows whole.
    pub fn scroll_down(&mut self)
        ensures
            final(self).bottom_index == if old(self).scroll_mode == ScrollMode::ScrollDown
                || !old(self).has_cropped_items {
                if old(self).bottom_index < usize::MAX {
                    old(self).bottom_index + 1
                } else {
                    old(self).bottom_index as int
                }
            } else {
                old(self).bottom_index as int
            },
            final(self).scroll_mode == ScrollMode::ScrollDown,
            final(self).top_index == old(self).top_index,
            final(self).has_cropped_items == old(self).has_cropped_items,
            final(self).lines == old(self).lines,
    {
        if self.scroll_mode == ScrollMode::ScrollDown || !self.has_cropped_items {
            if self.bottom_index < usize::MAX {
                self.bottom_index = self.bottom_index + 1;
            }
        }
        self.scroll_mode = ScrollMode::ScrollDown;
    }

    /// The rows of a terminal of `height` rows that remain for records.
    pub fn usable_height(height: usize) -> (r: usize)
        ensures
            r == usable_height(height),
    {
        if height > 2 {
            height - 2
        } else {
            0
        }
    }

    /// Renders the window for a terminal of `terminal_height` rows. Scrolling up, the
    /// window starts at `top_index` and takes lines from the front, and `bottom_index`
    /// follows. Scrolling down, it ends at `bottom_index` (held to the records that
    /// exist) and takes lines from the back, and `top_index` follows. A failed fetch
    /// leaves the state as it was.
    pub fn render<T, F: Fetcher<T>, R: RecordFormatter<T>>(
        &mut self,
        c: &mut Collector<T, F>,
        formatter: &R,
        terminal_height: usize,
    ) -> (r: Result<(), FetcherError>)
        requires
            old(c).wf(),
        ensures
            old(c).grows_to(*final(c)),
            r matches Err(e) ==> {
                &&& *final(self) == *old(self)
                &&& final(c).fetches().len() > old(c).fetches().len()
                &&& final(c).fetches().last().1 == Err::<(usize, Vec<T>), _>(e)
            },
            r is Ok ==> final(self).scroll_mode == old(self).scroll_mode,
            r is Ok ==> final(self).top_index <= final(self).bottom_index,
            r is Ok && old(self).scroll_mode == ScrollMode::ScrollUp ==> {
                &&& final(self).top_index == old(self).top_index
                &&& exists|lines: Seq<String>, sizes: Seq<usize>, texts: Seq<String>|
                    #![trigger window_of(shown(*final(self)), lines, sizes, Some(usable_height(terminal_height)), None), renders(*formatter, final(c).records(), old(self).top_index as int, texts, lines, sizes)]
                    {
                        &&& window_of(
                            shown(*final(self)),
                            lines,
                            sizes,
                            Some(usable_height(terminal_height)),
                            None,
                        )
                        &&& renders(
                            *formatter,
                            final(c).records(),
                            old(self).top_index as int,
                            texts,
                            lines,
                            sizes,
                        )
                        &&& window_reads(
                            old(self).top_index as int,
                            sizes,
                            None,
                            Some(usable_height(terminal_height)),
                            final(c).records().len() as int,
                        )
                        &&& (window_open(sizes, None, Some(usable_height(terminal_height))) ==> {
                            &&& final(c).terminal()
                            &&& old(self).top_index + sizes.len() >= final(c).records().len()
                        })
                    }
            },
            r is Ok && old(self).scroll_mode == ScrollMode::ScrollDown ==> {
                &&& final(self).bottom_index == if old(self).bottom_index
                    <= final(c).records().len() {
                    old(self).bottom_index as int
                } else {
                    final(c).records().len() as int
                }
                &&& exists|lines: Seq<String>, sizes: Seq<usize>, texts: Seq<String>|
                    #![trigger window_of(shown(*final(self)), lines, sizes, None, Some(usable_height(terminal_height))), renders(*formatter, final(c).records(), 0, texts, lines, sizes)]
                    {
                        &&& window_of(
                            shown(*final(self)),
                            lines,
                            sizes,
                            None,
                            Some(usable_height(terminal_height)),
                        )
                        &&& renders(*formatter, final(c).records(), 0, texts, lines, sizes)
                        &&& sizes.len() == final(self).bottom_index
                    }
            },
    {
        let height = PagerState::usable_height(terminal_height);
        let from = c.iter();
        match self.scroll_mode {
            ScrollMode::ScrollUp => {
                let window = LinesCollector::new(formatter).skip_items(self.top_index).take_lines(
                    height,
                );
                let ghost w = window;
                match window.collect(c, from) {
                    Err(e) => Err(e),
                    Ok(out) => {
                        let ghost o = out;
                        proof {
                            lemma_len_fits(*c);
                        }
                        self.bottom_index = self.top_index + out.items_count;
                        self.has_cropped_items = out.has_cropped_items;
                        self.lines = out.lines;
                        assert(shown(*self) == o);
                        Ok(())
                    },
                }
            },
            ScrollMode::ScrollDown => {
                let window = LinesCollector::new(formatter).take_items(
                    self.bottom_index,
                ).take_last_lines(height);
                let ghost w = window;
                match window.collect(c, from) {
                    Err(e) => Err(e),
                    Ok(out) => {
                        let held = c.from();
                        let bottom = if self.bottom_index <= held {
                            self.bottom_index
                        } else {
                            held
                        };
                        self.bottom_index = bottom;
                        let ghost o = out;
                        self.top_index = bottom - out.items_count;
                        self.has_cropped_items = out.has_cropped_items;
                        self.lines = out.lines;
                        assert(shown(*self) == o);
                        Ok(())
                    },
                }
            },
        }
    }
}

/// A pager input: scroll up or down by one record.
#[derive(Debug, Clone, Copy, PartialEq, Eq, Structural)]
pub enum PagerEvent {
    ScrollUp,
    ScrollDown,
}

/// An input of the interface.
#[derive(Debug, Clone, Copy, PartialEq, Eq, Structural)]
pub enum Event {
    SwitchView,
    Pager(PagerEvent),
}

/// The whole interface state.
pub struct State {
    pub view: Screen,
    pub pager: PagerState,
    pub terminal_height: usize,
}

impl Default for State {
    fn default() -> (r: Self)
        ensures
            r.view == Screen::Pager,
            r.pager.lines.len() == 0,
            r.pager.top_index == 0,
            r.pager.bottom_index == 0,
            !r.pager.has_cropped_items,
            r.pager.scroll_mode == ScrollMode::ScrollUp,
            r.terminal_height == 0,
    {
        State { view: Screen::Pager, pager: PagerState::default(), terminal_height: 0 }
    }
}

/// Folds an event into a state.
pub trait Reducer<S, E> {
    fn reduce(&self, state: &mut S, event: E);
}

/// The interface's reducer: switching toggles the screen, and pager events drive
/// the pager's scroll transitions.
pub struct RootReducer {}

impl RootReducer {
    pub fn new() -> (r: Self) {
        RootReducer {  }
    }

    /// The state after `event`.
    pub fn apply(&self, state: &mut State, event: Event)
        ensures
            event == Event::SwitchView ==> {
                &&& final(state).view == if old(state).view == Screen::Pager {
                    Screen::Help
                } else {
                    Screen::Pager
                }
                &&& final(state).pager == old(state).pager
            },
            event == Event::Pager(PagerEvent::ScrollUp) ==> {
                &&& final(state).view == old(state).view
                &&& final(state).pager.scroll_mode == ScrollMode::ScrollUp
                &&& final(state).pager.bottom_index == old(state).pager.bottom_index
                &&& final(state).pager.top_index == if old(state).pager.scroll_mode
                    == ScrollMode::ScrollUp || !old(state).pager.has_cropped_items {
                    if old(state).pager.top_index > 0 {
                        old(state).pager.top_index - 1
                    } else {
                        0
                    }
                } else {
                    old(state).pager.top_index as int
                }
            },
            event == Event::Pager(PagerEvent::ScrollDown) ==> {
                &&& final(state).view == old(state).view
                &&& final(state).pager.scroll_mode == ScrollMode::ScrollDown
                &&& final(state).pager.top_index == old(state).pager.top_index
                &&& final(state).pager.bottom_index == if old(state).pager.scroll_mode
                    == ScrollMode::ScrollDown || !old(state).pager.has_cropped_items {
                    if old(state).pager.bottom_index < usize::MAX {
                        old(state).pager.bottom_index + 1
                    } else {
                        old(state).pager.bottom_index as int
                    }
                } else {
                    old(state).pager.bottom_index as int
                }
            },
            final(state).terminal_height == old(state).terminal_height,
    {
        match event {
            Event::SwitchView => {
                state.view = match state.view {
                    Screen::Pager => Screen::Help,
                    Screen::Help => Screen::Pager,
                };
            },
            Event::Pager(PagerEvent::ScrollUp) => {
                state.pager.scroll_up();
            },
            Event::Pager(PagerEvent::ScrollDown) => {
                state.pager.scroll_down();
            },
        }
    }
}

impl Reducer<State, Event> for RootReducer {
    fn reduce(&self, state: &mut State, event: Event) {
        self.apply(state, event)
    }
}

/// The screen that shows the pager.
pub struct PagerView {}

impl PagerView {
    pub fn new() -> (r: Self) {
        PagerView {  }
    }
}

/// The screen that shows the help text.
pub struct HelpView {}

impl HelpView {
    pub fn new() -> (r: Self) {
        HelpView {  }
    }
}

/// The top screen: the pager or the help text, by the state's screen.
pub struct RootView {
    pub pager_view: PagerView,
    pub help_view: HelpView,
}

impl RootView {
    pub fn new() -> (r: Self) {
        RootView { pager_view: PagerView::new(), help_view: HelpView::new() }
    }
}

} // verus!
