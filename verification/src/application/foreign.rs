//! Tabs that are dragged here from another program.

use crate::application::drag::{
    drag_target, tab_drag_target_index, ForeignDrag, ToplevelDragEvent,
};
use crate::application::outbox::{find_window, window_of, Effect, EffectModel, WindowFacts};
use crate::application::state::{Application, ApplicationModel};
use vstd::prelude::*;

verus! {

/// The number that some bytes are, the first one first.
pub open spec fn number_of(bytes: Seq<u8>) -> nat
    decreases bytes.len(),
{
    if bytes.len() == 0 {
        0
    } else {
        number_of(bytes.drop_last()) * 256 + bytes.last() as nat
    }
}

/// How many numbers have so many bytes.
pub open spec fn numbers_in(count: nat) -> nat
    decreases count,
{
    if count == 0 {
        1
    } else {
        numbers_in((count - 1) as nat) * 256
    }
}

proof fn lemma_number_in_range(bytes: Seq<u8>)
    ensures
        number_of(bytes) < numbers_in(bytes.len()),
    decreases bytes.len(),
{
    if bytes.len() > 0 {
        lemma_number_in_range(bytes.drop_last());
        let high = number_of(bytes.drop_last());
        let range = numbers_in((bytes.len() - 1) as nat);
        assert(high * 256 + bytes.last() < range * 256) by (nonlinear_arith)
            requires
                high < range,
                bytes.last() < 256,
        ;
    }
}

proof fn lemma_numbers_grow(count: nat)
    requires
        count <= 16,
    ensures
        numbers_in(count) <= u128::MAX + 1,
{
    reveal_with_fuel(numbers_in, 17);
}

/// The token that some bytes are: there have to be sixteen.
pub open spec fn token_of(bytes: Seq<u8>) -> Option<u128> {
    if bytes.len() == 16 {
        Some(number_of(bytes) as u128)
    } else {
        None
    }
}

pub fn token_from(bytes: &Vec<u8>) -> (r: Option<u128>)
    ensures
        r == token_of(bytes@),
        r matches Some(token) ==> token == number_of(bytes@),
{
    if bytes.len() != 16 {
        return None;
    }
    let mut token: u128 = 0;
    let mut i: usize = 0;
    while i < bytes.len()
        invariant
            i <= bytes@.len() == 16,
            token == number_of(bytes@.take(i as int)),
        decreases bytes@.len() - i,
    {
        proof {
            assert(bytes@.take(i + 1).drop_last() =~= bytes@.take(i as int));
            lemma_number_in_range(bytes@.take(i + 1));
            lemma_numbers_grow((i + 1) as nat);
        }
        token = token * 256 + bytes[i] as u128;
        i += 1;
    }
    proof {
        assert(bytes@.take(i as int) =~= bytes@);
    }
    Some(token)
}

/// What is asked of the window system or of the other program.
#[derive(Clone, Copy, Debug, PartialEq, Eq, Structural)]
pub enum ForeignRequest {
    /// Accepts an offer over a window, at a position.
    Accept(u64, u64, usize),
    /// Asks for the data of an offer; the drag has failed already, or not.
    Receive(u64, u64, bool),
    /// Asks the other program for what it dropped.
    TakeOffer(u128, u64, usize),
}

impl ForeignDrag {
    pub open spec fn is_for(&self, window: u64, offer: u64) -> bool {
        self.offer == offer && self.window == window
    }
}

impl ApplicationModel {
    pub open spec fn foreign_is(self, window: u64, offer: u64) -> bool {
        self.foreign matches Some(drag) && drag.is_for(window, offer)
    }

    /// A foreign drag is over a position.
    pub open spec fn foreign_over(
        self,
        windows: Seq<WindowFacts>,
        drag: ForeignDrag,
        index: usize,
    ) -> ApplicationModel {
        (ApplicationModel { foreign: Some(ForeignDrag { index, ..drag }), ..self }).marked(
            windows,
            drag.window,
            index,
        )
    }

    /// A foreign drag is given up.
    pub open spec fn foreign_failed(self) -> ApplicationModel {
        (match self.foreign {
            Some(drag) => (ApplicationModel { foreign: None, ..self }).emitting(
                EffectModel::CancelDrag(drag.window, drag.offer),
            ),
            None => self,
        }).marker_cleared()
    }

    /// Once a tab is dropped and moving it was agreed on, its data is asked for;
    /// a drag that has failed is given up.
    pub open spec fn foreign_followed(
        self,
        windows: Seq<WindowFacts>,
        window: u64,
        failed: bool,
    ) -> (ApplicationModel, Option<ForeignRequest>) {
        if self.foreign matches Some(drag) && drag.dropped && drag.selected_move
            && !drag.receiving {
            let drag = self.foreign->0;
            let asking = ApplicationModel {
                foreign: Some(ForeignDrag { receiving: true, ..drag }),
                ..self
            };
            if window_of(windows, window) is Some {
                (asking, Some(ForeignRequest::Receive(window, drag.offer, failed)))
            } else {
                (asking.foreign_failed(), None)
            }
        } else if failed {
            (self.foreign_failed(), None)
        } else {
            (self, None)
        }
    }

    pub open spec fn foreign_moved(
        self,
        windows: Seq<WindowFacts>,
        window: u64,
        offer: u64,
        drop_index: Option<usize>,
    ) -> (ApplicationModel, Option<ForeignRequest>) {
        if self.foreign matches Some(drag) && drag.dropped {
            (self, None)
        } else {
            match drag_target(windows, window, drop_index, false, 1) {
                None => (
                    (ApplicationModel {
                        foreign: None,
                        ..self.emitting(EffectModel::RejectDrag(window, offer))
                    }).marker_cleared(),
                    None,
                ),
                Some(index) => if self.foreign_is(window, offer) {
                    (self.foreign_over(windows, self.foreign->0, index), None)
                } else {
                    (self, Some(ForeignRequest::Accept(window, offer, index)))
                },
            }
        }
    }

    /// What is done with what the window system tells of a foreign drag, and
    /// what is asked for.
    pub open spec fn foreign_told(
        self,
        windows: Seq<WindowFacts>,
        window: u64,
        event: ToplevelDragEvent,
        drop_index: Option<usize>,
    ) -> (ApplicationModel, Option<ForeignRequest>) {
        match event {
            ToplevelDragEvent::Entered(offer) => self.foreign_moved(
                windows,
                window,
                offer,
                drop_index,
            ),
            ToplevelDragEvent::Motion(offer) => self.foreign_moved(
                windows,
                window,
                offer,
                drop_index,
            ),
            ToplevelDragEvent::Dropped(offer) => (if self.foreign_is(window, offer) {
                ApplicationModel {
                    foreign: Some(ForeignDrag { dropped: true, ..self.foreign->0 }),
                    ..self
                }
            } else {
                self
            }).foreign_followed(windows, window, false),
            ToplevelDragEvent::SelectedActionChanged(offer, selected_move) => (if self.foreign_is(
                window,
                offer,
            ) {
                ApplicationModel {
                    foreign: Some(ForeignDrag { selected_move, ..self.foreign->0 }),
                    ..self
                }
            } else {
                self
            }).foreign_followed(windows, window, false),
            ToplevelDragEvent::Left(offer) => self.foreign_followed(
                windows,
                window,
                self.foreign matches Some(drag) && drag.offer == offer && !drag.dropped,
            ),
            ToplevelDragEvent::OfferCancelled(offer) => self.foreign_followed(
                windows,
                window,
                self.foreign matches Some(drag) && drag.offer == offer,
            ),
            ToplevelDragEvent::OfferDataFailed(offer) => self.foreign_followed(
                windows,
                window,
                self.foreign matches Some(drag) && drag.offer == offer,
            ),
            ToplevelDragEvent::DataReady(offer, data) => if self.foreign matches Some(drag)
                && drag.is_for(window, offer) && drag.dropped && drag.receiving && drag.token
                is None {
                let drag = self.foreign->0;
                match token_of(data@) {
                    Some(token) => {
                        let named = ApplicationModel {
                            foreign: Some(ForeignDrag { token: Some(token), ..drag }),
                            ..self
                        };
                        if self.control is Some {
                            (named, Some(ForeignRequest::TakeOffer(token, window, drag.index)))
                        } else {
                            (named.foreign_failed(), None)
                        }
                    },
                    None => (self.foreign_failed(), None),
                }
            } else {
                self.foreign_followed(windows, window, false)
            },
            _ => self.foreign_followed(windows, window, false),
        }
    }

    /// What a request of a foreign drag comes to.
    pub open spec fn foreign_answered(
        self,
        windows: Seq<WindowFacts>,
        request: ForeignRequest,
        granted: bool,
    ) -> ApplicationModel {
        match request {
            ForeignRequest::Accept(window, offer, index) => if granted {
                self.foreign_over(
                    windows,
                    ForeignDrag {
                        window,
                        offer,
                        index,
                        dropped: false,
                        selected_move: false,
                        receiving: false,
                        token: None,
                    },
                    index,
                )
            } else {
                self
            },
            ForeignRequest::Receive(window, offer, failed) => if failed || !granted {
                self.foreign_failed()
            } else {
                self
            },
            ForeignRequest::TakeOffer(token, window, index) => if granted {
                self
            } else {
                self.foreign_failed()
            },
        }
    }

    /// The other program says what came of its drag.
    pub open spec fn foreign_resolved(
        self,
        windows: Seq<WindowFacts>,
        transfer_id: u128,
        error: Option<Seq<char>>,
    ) -> ApplicationModel {
        if self.foreign matches Some(drag) && drag.token == Some(transfer_id) {
            let drag = self.foreign->0;
            let rest = ApplicationModel { foreign: None, ..self };
            match error {
                None => rest.emitting(
                    EffectModel::FinishDrag(drag.window, drag.offer),
                ).marker_cleared(),
                Some(error) => rest.emitting(
                    EffectModel::CancelDrag(drag.window, drag.offer),
                ).marker_cleared().failed(windows, drag.window, error),
            }
        } else {
            self
        }
    }
}

impl Application {
    fn put_foreign(&mut self, drag: Option<ForeignDrag>)
        ensures
            final(self)@ == (ApplicationModel { foreign: drag, ..old(self)@ }),
    {
        self.foreign_drag = drag;
        proof {
            assert(self@ =~= (ApplicationModel { foreign: drag, ..old(self)@ }));
        }
    }

    fn foreign_hovers(&mut self, windows: &Vec<WindowFacts>, drag: ForeignDrag, index: usize)
        ensures
            final(self)@ == old(self)@.foreign_over(windows@, drag, index),
    {
        self.put_foreign(Some(ForeignDrag { index, ..drag }));
        self.set_drop_marker(windows, drag.window, index);
    }

    fn fail_foreign(&mut self)
        ensures
            final(self)@ == old(self)@.foreign_failed(),
    {
        if let Some(drag) = self.foreign_drag {
            self.put_foreign(None);
            self.emit(Effect::CancelDrag(drag.window, drag.offer));
        }
        self.clear_drop_marker();
    }

    fn follow_foreign(&mut self, windows: &Vec<WindowFacts>, window: u64, failed: bool) -> (r: Option<
        ForeignRequest,
    >)
        ensures
            (final(self)@, r) == old(self)@.foreign_followed(windows@, window, failed),
    {
        if let Some(drag) = self.foreign_drag {
            if drag.dropped && drag.selected_move && !drag.receiving {
                self.put_foreign(Some(ForeignDrag { receiving: true, ..drag }));
                if find_window(windows, window).is_some() {
                    return Some(ForeignRequest::Receive(window, drag.offer, failed));
                }
                self.fail_foreign();
                return None;
            }
        }
        if failed {
            self.fail_foreign();
        }
        None
    }

    fn move_foreign(
        &mut self,
        windows: &Vec<WindowFacts>,
        window: u64,
        offer: u64,
        drop_index: Option<usize>,
    ) -> (r: Option<ForeignRequest>)
        ensures
            (final(self)@, r) == old(self)@.foreign_moved(windows@, window, offer, drop_index),
    {
        if let Some(drag) = self.foreign_drag {
            if drag.dropped {
                return None;
            }
        }
        match tab_drag_target_index(windows, window, drop_index, false, 1) {
            None => {
                self.emit(Effect::RejectDrag(window, offer));
                self.put_foreign(None);
                self.clear_drop_marker();
                None
            },
            Some(index) => {
                if let Some(drag) = self.foreign_drag {
                    if drag.offer == offer && drag.window == window {
                        self.foreign_hovers(windows, drag, index);
                        return None;
                    }
                }
                Some(ForeignRequest::Accept(window, offer, index))
            },
        }
    }

    /// What the window system tells of a drag that started in another program.
    pub fn handle_foreign_drag(
        &mut self,
        windows: &Vec<WindowFacts>,
        window: u64,
        event: ToplevelDragEvent,
        drop_index: Option<usize>,
    ) -> (r: Option<ForeignRequest>)
        ensures
            (final(self)@, r) == old(self)@.foreign_told(windows@, window, event, drop_index),
    {
        let mut failed: bool = false;
        match event {
            ToplevelDragEvent::Entered(offer) => {
                return self.move_foreign(windows, window, offer, drop_index);
            },
            ToplevelDragEvent::Motion(offer) => {
                return self.move_foreign(windows, window, offer, drop_index);
            },
            ToplevelDragEvent::Dropped(offer) => {
                if let Some(drag) = self.foreign_drag {
                    if drag.offer == offer && drag.window == window {
                        self.put_foreign(Some(ForeignDrag { dropped: true, ..drag }));
                    }
                }
            },
            ToplevelDragEvent::SelectedActionChanged(offer, selected_move) => {
                if let Some(drag) = self.foreign_drag {
                    if drag.offer == offer && drag.window == window {
                        self.put_foreign(Some(ForeignDrag { selected_move, ..drag }));
                    }
                }
            },
            ToplevelDragEvent::Left(offer) => {
                if let Some(drag) = self.foreign_drag {
                    failed = drag.offer == offer && !drag.dropped;
                }
            },
            ToplevelDragEvent::OfferCancelled(offer) => {
                if let Some(drag) = self.foreign_drag {
                    failed = drag.offer == offer;
                }
            },
            ToplevelDragEvent::OfferDataFailed(offer) => {
                if let Some(drag) = self.foreign_drag {
                    failed = drag.offer == offer;
                }
            },
            ToplevelDragEvent::DataReady(offer, data) => {
                if let Some(drag) = self.foreign_drag {
                    if drag.offer == offer && drag.window == window && drag.dropped
                        && drag.receiving && drag.token.is_none() {
                        match token_from(&data) {
                            Some(token) => {
                                self.put_foreign(Some(ForeignDrag { token: Some(token), ..drag }));
                                if self.control.is_some() {
                                    return Some(
                                        ForeignRequest::TakeOffer(token, window, drag.index),
                                    );
                                }
                            },
                            None => {},
                        }
                        self.fail_foreign();
                        return None;
                    }
                }
            },
            _ => {},
        }
        self.follow_foreign(windows, window, failed)
    }

    /// Takes the answer to a request of a foreign drag.
    pub fn answer_foreign_request(
        &mut self,
        windows: &Vec<WindowFacts>,
        request: ForeignRequest,
        granted: bool,
    )
        ensures
            final(self)@ == old(self)@.foreign_answered(windows@, request, granted),
    {
        match request {
            ForeignRequest::Accept(window, offer, index) => {
                if granted {
                    self.foreign_hovers(
                        windows,
                        ForeignDrag {
                            window,
                            offer,
                            index,
                            dropped: false,
                            selected_move: false,
                            receiving: false,
                            token: None,
                        },
                        index,
                    );
                }
            },
            ForeignRequest::Receive(_, _, failed) => {
                if failed || !granted {
                    self.fail_foreign();
                }
            },
            ForeignRequest::TakeOffer(_, _, _) => {
                if !granted {
                    self.fail_foreign();
                }
            },
        }
    }

    /// The other program says what came of its drag.
    pub fn resolve_foreign_drag(
        &mut self,
        windows: &Vec<WindowFacts>,
        transfer_id: u128,
        result: Result<(), String>,
    )
        ensures
            final(self)@ == old(self)@.foreign_resolved(
                windows@,
                transfer_id,
                match result {
                    Ok(_) => None,
                    Err(error) => Some(error@),
                },
            ),
    {
        let drag: ForeignDrag = match self.foreign_drag {
            Some(drag) => drag,
            None => {
                return;
            },
        };
        let ours: bool = match drag.token {
            Some(token) => token == transfer_id,
            None => false,
        };
        if !ours {
            return;
        }
        self.put_foreign(None);
        match result {
            Ok(_) => {
                self.emit(Effect::FinishDrag(drag.window, drag.offer));
                self.clear_drop_marker();
            },
            Err(error) => {
                self.emit(Effect::CancelDrag(drag.window, drag.offer));
                self.clear_drop_marker();
                self.show_merge_error(windows, drag.window, error);
            },
        }
    }
}

/// Nothing is asked of another program before its tab was dropped, moving it
/// was agreed on, and its data came.
pub proof fn law_offers_are_taken_after_the_drop(
    app: ApplicationModel,
    windows: Seq<WindowFacts>,
    window: u64,
    event: ToplevelDragEvent,
    drop_index: Option<usize>,
)
    requires
        app.foreign_told(windows, window, event, drop_index).1 matches Some(
            ForeignRequest::TakeOffer(_, _, _),
        ),
    ensures
        event is DataReady,
        app.foreign matches Some(drag) && drag.dropped && drag.receiving && drag.token is None,
{
}

} // verus!
