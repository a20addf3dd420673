use vstd::prelude::*;
use std::rc::Rc;
use uapi::OwnedFd;
use crate::event::{ObjectId, WlDataOfferId, WlDataSourceId, WlSurfaceId};

verus! {

pub const DND_NONE: u32 = 0;
pub const DND_COPY: u32 = 1;
pub const DND_MOVE: u32 = 2;
pub const DND_ASK: u32 = 4;
pub const DND_ALL: u32 = 7;

pub const OFFER_STATE_ACCEPTED: u32 = 1;
pub const OFFER_STATE_FINISHED: u32 = 2;
pub const OFFER_STATE_DROPPED: u32 = 4;

pub const SOURCE_STATE_USED: u32 = 2;
pub const SOURCE_STATE_FINISHED: u32 = 4;
pub const SOURCE_STATE_DROPPED: u32 = 8;
pub const SOURCE_STATE_CANCELLED: u32 = 16;

/// The state a source shares with the offer currently made from it.
#[derive(Copy, Clone, Debug, PartialEq, Eq, Structural)]
pub struct SharedState {
    pub state: u32,
    pub receiver_actions: u32,
    pub receiver_preferred_action: u32,
    pub selected_action: u32,
}

impl SharedState {
    /// The state of a source that no receiver has seen yet.
    pub fn new() -> (r: Self)
        ensures
            r == fresh_shared(),
    {
        SharedState { state: 0, receiver_actions: 0, receiver_preferred_action: 0, selected_action: 0 }
    }
}

pub open spec fn fresh_shared() -> SharedState {
    SharedState { state: 0, receiver_actions: 0, receiver_preferred_action: 0, selected_action: 0 }
}

/// Work handed to the X window manager when the source belongs to it.
#[derive(Debug)]
pub enum XWaylandEvent {
    SurfaceCreated(WlSurfaceId),
    SurfaceSerialAssigned(WlSurfaceId),
    SurfaceDestroyed(WlSurfaceId, Option<u64>),
    ActivateRoot,
    SeatChanged,
    ClipboardCancelSource(WlDataSourceId),
    ClipboardSendSource(WlDataSourceId, String, Rc<OwnedFd>),
}

/// An event of a data source to its client.
#[derive(Debug)]
pub enum SourceEvent {
    Target(Option<String>),
    Send(String, Rc<OwnedFd>),
    Cancelled,
    DndDropPerformed,
    DndFinished,
    Action(u32),
}

/// What a data source asks of the world around it.
#[derive(Debug)]
pub enum SourceAction {
    /// Send an event to the source's client.
    Client(SourceEvent),
    /// Hand work to the X window manager.
    Xwayland(XWaylandEvent),
    /// Tell an offer of this source which action was selected.
    OfferAction { offer: WlDataOfferId, action: u32 },
    /// Announce a new mime type to an offer of this source.
    OfferMimeType { offer: WlDataOfferId, mime_type: String },
    /// Cancel every offer made from this source.
    CancelOffers,
    /// Finish the toplevel drag attached to the source.
    FinishDrag(ObjectId),
}

pub enum SourceActionV {
    Target(Option<Seq<char>>),
    Send(Seq<char>, Rc<OwnedFd>),
    Cancelled,
    DndDropPerformed,
    DndFinished,
    Action(u32),
    XwmCancel(ObjectId),
    XwmSend(ObjectId, Seq<char>, Rc<OwnedFd>),
    XwmOther,
    OfferAction(ObjectId, u32),
    OfferMimeType(ObjectId, Seq<char>),
    CancelOffers,
    FinishDrag(ObjectId),
}

impl View for SourceAction {
    type V = SourceActionV;

    open spec fn view(&self) -> SourceActionV {
        match self {
            SourceAction::Client(e) => match e {
                SourceEvent::Target(m) => SourceActionV::Target(
                    match m {
                        Some(s) => Some(s@),
                        None => None,
                    },
                ),
                SourceEvent::Send(m, fd) => SourceActionV::Send(m@, *fd),
                SourceEvent::Cancelled => SourceActionV::Cancelled,
                SourceEvent::DndDropPerformed => SourceActionV::DndDropPerformed,
                SourceEvent::DndFinished => SourceActionV::DndFinished,
                SourceEvent::Action(a) => SourceActionV::Action(*a),
            },
            SourceAction::Xwayland(x) => match x {
                XWaylandEvent::ClipboardCancelSource(id) => SourceActionV::XwmCancel(*id),
                XWaylandEvent::ClipboardSendSource(id, m, fd) => SourceActionV::XwmSend(*id, m@, *fd),
                _ => SourceActionV::XwmOther,
            },
            SourceAction::OfferAction { offer, action } => SourceActionV::OfferAction(*offer, *action),
            SourceAction::OfferMimeType { offer, mime_type } => SourceActionV::OfferMimeType(
                *offer,
                mime_type@,
            ),
            SourceAction::CancelOffers => SourceActionV::CancelOffers,
            SourceAction::FinishDrag(d) => SourceActionV::FinishDrag(*d),
        }
    }
}

pub open spec fn actions_view(v: Seq<SourceAction>) -> Seq<SourceActionV> {
    v.map_values(|a: SourceAction| a@)
}

/// Why a request to a data source failed.
#[derive(Debug, Clone, Copy, PartialEq, Eq, Structural)]
pub enum WlDataSourceError {
    /// The request could not be decoded.
    MsgParserError(crate::wire::DecodeError),
    /// The set of actions is invalid.
    InvalidActions,
    /// The actions have already been set.
    AlreadySet,
}

/// The source side of a clipboard or drag-and-drop transfer.
pub struct WlDataSource {
    pub id: WlDataSourceId,
    pub version: u32,
    /// Whether the source belongs to the X window manager.
    pub is_xwm: bool,
    /// The drag-and-drop actions the source offers, once set.
    pub actions: Option<u32>,
    /// `SOURCE_STATE_*` flags.
    pub state: u32,
    pub shared: SharedState,
    /// The offers currently made from this source.
    pub offers: Vec<WlDataOfferId>,
    pub mime_types: Vec<String>,
    /// The toplevel drag attached to the source, if any.
    pub toplevel_drag: Option<ObjectId>,
    /// What the source has asked for, oldest first.
    pub outbox: Vec<SourceAction>,
}

/// The lowest set bit of `x` at or above bit `i`, or 0.
pub open spec fn lowest_bit_from(x: u32, i: u32) -> u32
    decreases 32 - i,
{
    if i >= 32 {
        0
    } else if x & (1u32 << i) != 0 {
        1u32 << i
    } else {
        lowest_bit_from(x, (i + 1) as u32)
    }
}

/// The action selected from what both sides support: the receiver's preferred
/// action when it is supported, else the lowest supported one, else none.
pub open spec fn selected(server: u32, receiver: u32, preferred: u32) -> u32 {
    let actions = server & receiver;
    if actions & preferred == preferred {
        preferred
    } else if actions != 0 {
        lowest_bit_from(actions, 0)
    } else {
        0
    }
}

fn lowest_bit(x: u32) -> (r: u32)
    ensures
        r == lowest_bit_from(x, 0),
{
    let mut i: u32 = 0;
    while i < 32
        invariant
            i <= 32,
            lowest_bit_from(x, i) == lowest_bit_from(x, 0),
        decreases 32 - i,
    {
        if x & (1u32 << i) != 0 {
            return 1u32 << i;
        }
        i = i + 1;
    }
    0
}

/// `b` is `a` with only its outbox changed.
pub open spec fn same_but_outbox(a: &WlDataSource, b: &WlDataSource) -> bool {
    &&& b.id == a.id
    &&& b.version == a.version
    &&& b.is_xwm == a.is_xwm
    &&& b.actions == a.actions
    &&& b.state == a.state
    &&& b.shared == a.shared
    &&& b.offers@ == a.offers@
    &&& b.mime_types@ == a.mime_types@
    &&& b.toplevel_drag == a.toplevel_drag
}

/// The client event `e`, unless the source belongs to the X window manager.
pub open spec fn to_client(is_xwm: bool, e: SourceActionV) -> Seq<SourceActionV> {
    if is_xwm {
        seq![]
    } else {
        seq![e]
    }
}

impl WlDataSource {
    pub fn new(id: WlDataSourceId, is_xwm: bool, version: u32) -> (r: Self)
        ensures
            r.id == id,
            r.is_xwm == is_xwm,
            r.version == version,
            r.actions is None,
            r.state == 0,
            r.shared == fresh_shared(),
            r.offers@.len() == 0,
            r.mime_types@.len() == 0,
            r.toplevel_drag is None,
            r.outbox@.len() == 0,
    {
        WlDataSource {
            id,
            version,
            is_xwm,
            actions: None,
            state: 0,
            shared: SharedState::new(),
            offers: Vec::new(),
            mime_types: Vec::new(),
            toplevel_drag: None,
            outbox: Vec::new(),
        }
    }

    fn push_client(&mut self, e: SourceEvent)
        ensures
            same_but_outbox(old(self), final(self)),
            actions_view(final(self).outbox@) == actions_view(old(self).outbox@) + to_client(
                old(self).is_xwm,
                SourceAction::Client(e)@,
            ),
    {
        if !self.is_xwm {
            let a = SourceAction::Client(e);
            let ghost av = a@;
            self.outbox.push(a);
            proof {
                assert(actions_view(self.outbox@) =~= actions_view(old(self).outbox@) + seq![av]);
            }
        } else {
            proof {
                assert(actions_view(self.outbox@) =~= actions_view(old(self).outbox@) + Seq::<
                    SourceActionV,
                >::empty());
            }
        }
    }

    fn push(&mut self, a: SourceAction)
        ensures
            same_but_outbox(old(self), final(self)),
            actions_view(final(self).outbox@) == actions_view(old(self).outbox@).push(a@),
    {
        self.outbox.push(a);
        proof {
            assert(actions_view(self.outbox@) =~= actions_view(old(self).outbox@).push(a@));
        }
    }

    /// Tells the client which mime type the receiver accepts, if any.
    pub fn send_target(&mut self, mime_type: Option<&str>)
        ensures
            same_but_outbox(old(self), final(self)),
            actions_view(final(self).outbox@) == actions_view(old(self).outbox@) + to_client(
                old(self).is_xwm,
                SourceActionV::Target(
                    match mime_type {
                        Some(s) => Some(s@),
                        None => None,
                    },
                ),
            ),
    {
        let m = match mime_type {
            Some(s) => Some(s.to_owned()),
            None => None,
        };
        self.push_client(SourceEvent::Target(m));
    }

    /// Tells the client that the drop was performed.
    pub fn send_dnd_drop_performed(&mut self)
        ensures
            same_but_outbox(old(self), final(self)),
            actions_view(final(self).outbox@) == actions_view(old(self).outbox@) + to_client(
                old(self).is_xwm,
                SourceActionV::DndDropPerformed,
            ),
    {
        self.push_client(SourceEvent::DndDropPerformed);
    }

    /// Tells the client that the transfer finished.
    pub fn send_dnd_finished(&mut self)
        ensures
            same_but_outbox(old(self), final(self)),
            actions_view(final(self).outbox@) == actions_view(old(self).outbox@) + to_client(
                old(self).is_xwm,
                SourceActionV::DndFinished,
            ),
    {
        self.push_client(SourceEvent::DndFinished);
    }

    /// Tells the client which action was selected.
    pub fn send_action(&mut self, dnd_action: u32)
        ensures
            same_but_outbox(old(self), final(self)),
            actions_view(final(self).outbox@) == actions_view(old(self).outbox@) + to_client(
                old(self).is_xwm,
                SourceActionV::Action(dnd_action),
            ),
    {
        self.push_client(SourceEvent::Action(dnd_action));
    }

    /// Asks for the data in `mime_type`, to be written to `fd`.
    pub fn send_send(&mut self, mime_type: &str, fd: Rc<OwnedFd>)
        ensures
            same_but_outbox(old(self), final(self)),
            actions_view(final(self).outbox@) == actions_view(old(self).outbox@).push(
                if old(self).is_xwm {
                    SourceActionV::XwmSend(old(self).id, mime_type@, fd)
                } else {
                    SourceActionV::Send(mime_type@, fd)
                },
            ),
    {
        if self.is_xwm {
            self.push(SourceAction::Xwayland(XWaylandEvent::ClipboardSendSource(self.id, mime_type.to_owned(), fd)));
        } else {
            self.push(SourceAction::Client(SourceEvent::Send(mime_type.to_owned(), fd)));
        }
    }

    /// Whether a drop on the current receiver would succeed.
    pub fn can_drop(&self) -> (r: bool)
        ensures
            r == (self.shared.selected_action != 0 && self.shared.state & OFFER_STATE_ACCEPTED
                == OFFER_STATE_ACCEPTED),
    {
        self.shared.selected_action != 0 && self.shared.state & OFFER_STATE_ACCEPTED
            == OFFER_STATE_ACCEPTED
    }

    /// The source was cancelled: the client learns of it, or the X window manager
    /// does for its own sources.
    pub fn send_cancelled(&mut self)
        ensures
            final(self).id == old(self).id,
            final(self).is_xwm == old(self).is_xwm,
            final(self).actions == old(self).actions,
            final(self).shared == old(self).shared,
            final(self).offers@ == old(self).offers@,
            final(self).state == if old(self).is_xwm {
                old(self).state
            } else {
                old(self).state | SOURCE_STATE_CANCELLED
            },
            final(self).toplevel_drag == if old(self).is_xwm {
                old(self).toplevel_drag
            } else {
                None
            },
            actions_view(final(self).outbox@) == actions_view(old(self).outbox@) + if old(
                self,
            ).is_xwm {
                seq![SourceActionV::XwmCancel(old(self).id)]
            } else {
                match old(self).toplevel_drag {
                    Some(d) => seq![SourceActionV::FinishDrag(d), SourceActionV::Cancelled],
                    None => seq![SourceActionV::Cancelled],
                }
            },
    {
        if self.is_xwm {
            self.push(SourceAction::Xwayland(XWaylandEvent::ClipboardCancelSource(self.id)));
            proof {
                assert(actions_view(self.outbox@) =~= actions_view(old(self).outbox@) + seq![
                    SourceActionV::XwmCancel(old(self).id),
                ]);
            }
        } else {
            self.state = self.state | SOURCE_STATE_CANCELLED;
            let ghost mid = actions_view(self.outbox@);
            match self.toplevel_drag {
                Some(d) => {
                    self.toplevel_drag = None;
                    self.push(SourceAction::FinishDrag(d));
                },
                None => {},
            }
            self.push_client(SourceEvent::Cancelled);
            proof {
                assert(actions_view(self.outbox@) =~= actions_view(old(self).outbox@) + match old(
                    self,
                ).toplevel_drag {
                    Some(d) => seq![SourceActionV::FinishDrag(d), SourceActionV::Cancelled],
                    None => seq![SourceActionV::Cancelled],
                });
            }
        }
    }

    /// The drop happened on the current receiver.
    pub fn on_drop(&mut self)
        ensures
            final(self).id == old(self).id,
            final(self).is_xwm == old(self).is_xwm,
            final(self).actions == old(self).actions,
            final(self).offers@ == old(self).offers@,
            final(self).state == old(self).state | SOURCE_STATE_DROPPED,
            final(self).toplevel_drag is None,
            final(self).shared == (SharedState {
                state: old(self).shared.state | OFFER_STATE_DROPPED,
                ..old(self).shared
            }),
            actions_view(final(self).outbox@) == actions_view(old(self).outbox@) + match old(
                self,
            ).toplevel_drag {
                Some(d) => seq![SourceActionV::FinishDrag(d)],
                None => seq![],
            } + to_client(old(self).is_xwm, SourceActionV::DndDropPerformed),
    {
        self.state = self.state | SOURCE_STATE_DROPPED;
        let ghost before = actions_view(self.outbox@);
        match self.toplevel_drag {
            Some(d) => {
                self.toplevel_drag = None;
                self.push(SourceAction::FinishDrag(d));
            },
            None => {},
        }
        let ghost mid = actions_view(self.outbox@);
        proof {
            assert(mid =~= before + match old(self).toplevel_drag {
                Some(d) => seq![SourceActionV::FinishDrag(d)],
                None => Seq::<SourceActionV>::empty(),
            });
        }
        self.send_dnd_drop_performed();
        self.shared.state = self.shared.state | OFFER_STATE_DROPPED;
    }

    /// The pointer left the receiver: unless the drop already happened, the shared
    /// state starts over, the client learns that nothing is accepted, and every offer
    /// is cancelled.
    pub fn on_leave(&mut self)
        ensures
            old(self).shared.state & OFFER_STATE_DROPPED != 0 ==> final(self).shared == old(
                self,
            ).shared && actions_view(final(self).outbox@) == actions_view(old(self).outbox@),
            old(self).shared.state & OFFER_STATE_DROPPED == 0 ==> final(self).shared
                == fresh_shared() && actions_view(final(self).outbox@) == actions_view(
                old(self).outbox@,
            ) + to_client(old(self).is_xwm, SourceActionV::Target(None)) + to_client(
                old(self).is_xwm,
                SourceActionV::Action(DND_NONE),
            ) + seq![SourceActionV::CancelOffers] && final(self).offers@.len() == 0,
            final(self).id == old(self).id,
            final(self).is_xwm == old(self).is_xwm,
            final(self).actions == old(self).actions,
            final(self).state == old(self).state,
    {
        if self.shared.state & OFFER_STATE_DROPPED != 0 {
            return;
        }
        self.shared = SharedState::new();
        self.send_target(None);
        self.send_action(DND_NONE);
        self.push(SourceAction::CancelOffers);
        self.offers = Vec::new();
    }

    /// Chooses the action from what the source and the receiver support and, when it
    /// changed, tells every offer and the client. Nothing happens before the source
    /// has set its actions.
    pub fn update_selected_action(&mut self)
        ensures
            final(self).id == old(self).id,
            final(self).is_xwm == old(self).is_xwm,
            final(self).actions == old(self).actions,
            final(self).state == old(self).state,
            final(self).offers@ == old(self).offers@,
            match old(self).actions {
                None => final(self).shared == old(self).shared && actions_view(final(self).outbox@)
                    == actions_view(old(self).outbox@),
                Some(server) => {
                    let action = selected(
                        server,
                        old(self).shared.receiver_actions,
                        old(self).shared.receiver_preferred_action,
                    );
                    &&& final(self).shared == (SharedState {
                        selected_action: action,
                        ..old(self).shared
                    })
                    &&& action == old(self).shared.selected_action ==> actions_view(
                        final(self).outbox@,
                    ) == actions_view(old(self).outbox@)
                    &&& action != old(self).shared.selected_action ==> actions_view(
                        final(self).outbox@,
                    ) == actions_view(old(self).outbox@) + old(self).offers@.map_values(
                        |o: ObjectId| SourceActionV::OfferAction(o, action),
                    ) + to_client(old(self).is_xwm, SourceActionV::Action(action))
                },
            },
    {
        let server_actions = match self.actions {
            Some(n) => n,
            None => return,
        };
        let actions = server_actions & self.shared.receiver_actions;
        let preferred = self.shared.receiver_preferred_action;
        let action = if actions & preferred == preferred {
            preferred
        } else if actions != 0 {
            lowest_bit(actions)
        } else {
            0
        };
        let previous = self.shared.selected_action;
        self.shared.selected_action = action;
        if previous != action {
            let ghost base = actions_view(self.outbox@);
            let ghost offers = self.offers@;
            let mut i: usize = 0;
            while i < self.offers.len()
                invariant
                    i <= self.offers@.len(),
                    self.offers@ == offers,
                    self.id == old(self).id,
                    self.is_xwm == old(self).is_xwm,
                    self.actions == old(self).actions,
                    self.state == old(self).state,
                    self.shared == (SharedState { selected_action: action, ..old(self).shared }),
                    actions_view(self.outbox@) == base + offers.take(i as int).map_values(
                        |o: ObjectId| SourceActionV::OfferAction(o, action),
                    ),
                decreases self.offers@.len() - i,
            {
                let offer = self.offers[i];
                self.push(SourceAction::OfferAction { offer, action });
                proof {
                    assert(offers.take(i + 1).map_values(|o: ObjectId| SourceActionV::OfferAction(o, action))
                        =~= offers.take(i as int).map_values(
                        |o: ObjectId| SourceActionV::OfferAction(o, action),
                    ).push(SourceActionV::OfferAction(offer, action)));
                }
                i = i + 1;
            }
            proof {
                assert(offers.take(i as int) =~= offers);
            }
            self.send_action(action);
        }
    }

    /// Sets the drag-and-drop actions the source offers; they can be set once, and
    /// only to known actions.
    pub fn set_actions(&mut self, dnd_actions: u32) -> (r: Result<(), WlDataSourceError>)
        ensures
            old(self).actions is Some ==> r == Err::<(), WlDataSourceError>(
                WlDataSourceError::AlreadySet,
            ) && final(self).actions == old(self).actions,
            old(self).actions is None && dnd_actions & !DND_ALL != 0 ==> r == Err::<
                (),
                WlDataSourceError,
            >(WlDataSourceError::InvalidActions) && final(self).actions is None,
            old(self).actions is None && dnd_actions & !DND_ALL == 0 ==> r is Ok
                && final(self).actions == Some(dnd_actions),
            final(self).outbox@ == old(self).outbox@,
            final(self).offers@ == old(self).offers@,
            final(self).is_xwm == old(self).is_xwm,
            final(self).toplevel_drag == old(self).toplevel_drag,
            final(self).id == old(self).id,
            final(self).shared == old(self).shared,
            final(self).state == old(self).state,
    {
        if self.actions.is_some() {
            return Err(WlDataSourceError::AlreadySet);
        }
        if dnd_actions & !DND_ALL != 0 {
            return Err(WlDataSourceError::InvalidActions);
        }
        self.actions = Some(dnd_actions);
        Ok(())
    }

    /// The source offers `mime_type`: a new mime type is recorded and announced to
    /// every offer made from the source; a known one changes nothing.
    pub fn offer(&mut self, mime_type: &str)
        ensures
            final(self).id == old(self).id,
            final(self).is_xwm == old(self).is_xwm,
            final(self).actions == old(self).actions,
            final(self).state == old(self).state,
            final(self).shared == old(self).shared,
            final(self).offers@ == old(self).offers@,
            (exists|i: int| 0 <= i < old(self).mime_types@.len() && (#[trigger] old(self).mime_types@[i])@
                == mime_type@) ==> final(self).mime_types@ == old(self).mime_types@ && actions_view(
                final(self).outbox@,
            ) == actions_view(old(self).outbox@),
            !(exists|i: int| 0 <= i < old(self).mime_types@.len() && (#[trigger] old(self).mime_types@[i])@
                == mime_type@) ==> final(self).mime_types@.len() == old(self).mime_types@.len() + 1
                && final(self).mime_types@.last()@ == mime_type@ && final(self).mime_types@.drop_last()
                == old(self).mime_types@ && actions_view(final(self).outbox@) == actions_view(
                old(self).outbox@,
            ) + old(self).offers@.map_values(
                |o: ObjectId| SourceActionV::OfferMimeType(o, mime_type@),
            ),
    {
        let m = mime_type.to_owned();
        let mut i: usize = 0;
        while i < self.mime_types.len()
            invariant
                i <= self.mime_types@.len(),
                self.mime_types@ == old(self).mime_types@,
                self.outbox@ == old(self).outbox@,
                self.id == old(self).id,
                self.is_xwm == old(self).is_xwm,
                self.actions == old(self).actions,
                self.state == old(self).state,
                self.shared == old(self).shared,
                self.offers@ == old(self).offers@,
                m@ == mime_type@,
                forall|j: int| 0 <= j < i ==> (#[trigger] self.mime_types@[j])@ != mime_type@,
            decreases self.mime_types@.len() - i,
        {
            if self.mime_types[i] == m {
                return;
            }
            i = i + 1;
        }
        self.mime_types.push(m);
        proof {
            assert(self.mime_types@.drop_last() =~= old(self).mime_types@);
        }
        let ghost base = actions_view(self.outbox@);
        let ghost offers = self.offers@;
        let mut k: usize = 0;
        while k < self.offers.len()
            invariant
                k <= self.offers@.len(),
                self.offers@ == offers,
                offers == old(self).offers@,
                self.mime_types@.len() == old(self).mime_types@.len() + 1,
                self.mime_types@.last()@ == mime_type@,
                self.mime_types@.drop_last() == old(self).mime_types@,
                self.id == old(self).id,
                self.is_xwm == old(self).is_xwm,
                self.actions == old(self).actions,
                self.state == old(self).state,
                self.shared == old(self).shared,
                base == actions_view(old(self).outbox@),
                actions_view(self.outbox@) == base + offers.take(k as int).map_values(
                    |o: ObjectId| SourceActionV::OfferMimeType(o, mime_type@),
                ),
            decreases self.offers@.len() - k,
        {
            let offer = self.offers[k];
            self.push(SourceAction::OfferMimeType { offer, mime_type: mime_type.to_owned() });
            proof {
                assert(offers.take(k + 1).map_values(|o: ObjectId| SourceActionV::OfferMimeType(o, mime_type@))
                    =~= offers.take(k as int).map_values(
                    |o: ObjectId| SourceActionV::OfferMimeType(o, mime_type@),
                ).push(SourceActionV::OfferMimeType(offer, mime_type@)));
            }
            k = k + 1;
        }
        proof {
            assert(offers.take(k as int) =~= offers);
        }
    }
}

} // verus!
