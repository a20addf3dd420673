use std::rc::Rc;
use uapi::OwnedFd;
use wirecore::data_source::{
    SourceAction, SourceEvent, WlDataSource, WlDataSourceError, XWaylandEvent, DND_ASK, DND_COPY,
    DND_MOVE, DND_NONE, OFFER_STATE_ACCEPTED, OFFER_STATE_DROPPED, SOURCE_STATE_CANCELLED,
    SOURCE_STATE_DROPPED,
};
use wirecore::event::{Event, ObjectId};
use wirecore::foreign::{
    build_args, TestSurface, ZxdgExportedV2, ZxdgExporterV2, ZxdgExporterV2Error,
    ZxdgExporterV2Global, ZxdgImportedV2, ZxdgImporterV2Global,
};
use wirecore::pointer::{WlPointer, AXIS_DISCRETE, BUTTON, ENTER, FRAME, PRESSED};
use wirecore::scale::Scale;
use wirecore::wire::{Arg, Fixed};

fn words(ws: &[u32]) -> Vec<u8> {
    ws.iter().flat_map(|w| w.to_le_bytes()).collect()
}

fn source(is_xwm: bool) -> WlDataSource {
    WlDataSource::new(ObjectId(10), is_xwm, 3)
}

#[test]
fn pointer_events() {
    let p = WlPointer::new(ObjectId(4), ObjectId(2));
    let e = p.enter(11, ObjectId(20), Fixed(256), Fixed(-512));
    assert_eq!(e.object, ObjectId(4));
    assert_eq!(e.opcode, ENTER);
    let (bytes, _) = e.encode();
    assert_eq!(bytes, words(&[4, 24 << 16, 11, 20, 256, (-512i32) as u32]));
    let e = p.button(1, 2, 0x110, PRESSED);
    assert_eq!(e.opcode, BUTTON);
    assert!(matches!(e.args[..], [Arg::Uint(1), Arg::Uint(2), Arg::Uint(0x110), Arg::Uint(1)]));
    let e = p.frame();
    assert_eq!(e.opcode, FRAME);
    assert!(e.args.is_empty());
    assert_eq!(e.encode().0, words(&[4, (8 << 16) | 5]));
    let e = p.axis_discrete(0, -3);
    assert_eq!(e.opcode, AXIS_DISCRETE);
    assert!(matches!(e.args[..], [Arg::Uint(0), Arg::Int(-3)]));
    assert!(matches!(p.leave(5, ObjectId(20)).args[..], [Arg::Uint(5), Arg::Object(20)]));
    assert!(matches!(p.motion(9, Fixed(1), Fixed(2)).args[..], [Arg::Uint(9), Arg::Fixed(Fixed(1)), Arg::Fixed(Fixed(2))]));
    assert!(matches!(p.axis(9, 1, Fixed(3)).args[..], [Arg::Uint(9), Arg::Uint(1), Arg::Fixed(Fixed(3))]));
    assert!(matches!(p.axis_source(2).args[..], [Arg::Uint(2)]));
    assert!(matches!(p.axis_stop(9, 0).args[..], [Arg::Uint(9), Arg::Uint(0)]));
}

#[test]
fn set_actions_once_and_only_known() {
    let mut s = source(false);
    assert_eq!(s.set_actions(8), Err(WlDataSourceError::InvalidActions));
    assert_eq!(s.actions, None);
    assert_eq!(s.set_actions(DND_COPY | DND_MOVE), Ok(()));
    assert_eq!(s.actions, Some(3));
    assert_eq!(s.set_actions(DND_COPY), Err(WlDataSourceError::AlreadySet));
    assert_eq!(s.actions, Some(3));
}

#[test]
fn selected_action_prefers_the_receiver() {
    let mut s = source(false);
    s.offers = vec![ObjectId(30), ObjectId(31)];
    s.update_selected_action();
    assert!(s.outbox.is_empty());
    s.set_actions(DND_COPY | DND_MOVE).unwrap();
    s.shared.receiver_actions = DND_COPY | DND_MOVE | DND_ASK;
    s.shared.receiver_preferred_action = DND_MOVE;
    s.update_selected_action();
    assert_eq!(s.shared.selected_action, DND_MOVE);
    assert_eq!(s.outbox.len(), 3);
    assert!(matches!(s.outbox[0], SourceAction::OfferAction { offer: ObjectId(30), action: 2 }));
    assert!(matches!(s.outbox[1], SourceAction::OfferAction { offer: ObjectId(31), action: 2 }));
    assert!(matches!(s.outbox[2], SourceAction::Client(SourceEvent::Action(2))));
    s.update_selected_action();
    assert_eq!(s.outbox.len(), 3);
    s.shared.receiver_preferred_action = DND_ASK;
    s.update_selected_action();
    assert_eq!(s.shared.selected_action, DND_COPY);
    s.shared.receiver_actions = DND_ASK;
    s.update_selected_action();
    assert_eq!(s.shared.selected_action, DND_NONE);
}

#[test]
fn drop_and_cancel() {
    let mut s = source(false);
    s.shared.selected_action = DND_COPY;
    assert!(!s.can_drop());
    s.shared.state = OFFER_STATE_ACCEPTED;
    assert!(s.can_drop());
    s.toplevel_drag = Some(ObjectId(50));
    s.on_drop();
    assert_eq!(s.state & SOURCE_STATE_DROPPED, SOURCE_STATE_DROPPED);
    assert_eq!(s.shared.state & OFFER_STATE_DROPPED, OFFER_STATE_DROPPED);
    assert!(s.toplevel_drag.is_none());
    assert!(matches!(s.outbox[0], SourceAction::FinishDrag(ObjectId(50))));
    assert!(matches!(s.outbox[1], SourceAction::Client(SourceEvent::DndDropPerformed)));
    s.on_leave();
    assert_eq!(s.outbox.len(), 2);
    s.send_cancelled();
    assert_eq!(s.state & SOURCE_STATE_CANCELLED, SOURCE_STATE_CANCELLED);
    assert!(matches!(s.outbox[2], SourceAction::Client(SourceEvent::Cancelled)));
}

#[test]
fn leave_resets_the_offer() {
    let mut s = source(false);
    s.offers = vec![ObjectId(30)];
    s.shared.selected_action = DND_MOVE;
    s.on_leave();
    assert_eq!(s.shared.selected_action, 0);
    assert!(s.offers.is_empty());
    assert!(matches!(s.outbox[0], SourceAction::Client(SourceEvent::Target(None))));
    assert!(matches!(s.outbox[1], SourceAction::Client(SourceEvent::Action(0))));
    assert!(matches!(s.outbox[2], SourceAction::CancelOffers));
}

#[test]
fn xwm_sources_go_to_the_window_manager() {
    let mut s = source(true);
    s.send_target(Some("text/plain"));
    s.send_action(DND_COPY);
    s.send_dnd_finished();
    s.send_dnd_drop_performed();
    assert!(s.outbox.is_empty());
    s.send_cancelled();
    assert_eq!(s.state, 0);
    assert!(matches!(s.outbox[0], SourceAction::Xwayland(XWaylandEvent::ClipboardCancelSource(ObjectId(10)))));
    let f = Rc::new(OwnedFd::new(-1));
    s.send_send("text/plain", f.clone());
    match &s.outbox[1] {
        SourceAction::Xwayland(XWaylandEvent::ClipboardSendSource(id, m, g)) => {
            assert_eq!(*id, ObjectId(10));
            assert_eq!(m, "text/plain");
            assert!(Rc::ptr_eq(g, &f));
        }
        other => panic!("{:?}", other),
    }
}

#[test]
fn client_sources_send_events() {
    let mut s = source(false);
    s.send_target(Some("text/html"));
    s.send_dnd_finished();
    let f = Rc::new(OwnedFd::new(-1));
    s.send_send("text/html", f);
    assert!(matches!(&s.outbox[0], SourceAction::Client(SourceEvent::Target(Some(m))) if m == "text/html"));
    assert!(matches!(s.outbox[1], SourceAction::Client(SourceEvent::DndFinished)));
    assert!(matches!(&s.outbox[2], SourceAction::Client(SourceEvent::Send(m, _)) if m == "text/html"));
}

#[test]
fn scale_arithmetic() {
    assert_eq!(Scale::from_int(2).to_wl(), 240);
    assert_eq!(Scale::from_int(u32::MAX).to_wl(), u32::MAX);
    assert_eq!(Scale::from_wl(180).round_up(), 2);
    assert_eq!(Scale::from_wl(240).round_up(), 2);
    assert_eq!(Scale::from_wl(u32::MAX).round_up(), u32::MAX / 120);
    assert_eq!(Scale::default().pixel_size(101, -7), (101, -7));
    assert_eq!(Scale::from_wl(180).pixel_size(101, -7), (152, -11));
    assert_eq!(Scale::from_wl(60).pixel_size(3, -3), (2, -2));
    assert_eq!(Scale::from_wl(u32::MAX).pixel_size(i32::MAX, i32::MIN), (i32::MAX, i32::MIN));
    assert!(Scale::from_int(3).is_factor(3));
    assert!(!Scale::from_wl(200).is_factor(2));
}

#[test]
fn xdg_foreign_objects() {
    let g = ZxdgExporterV2Global::new(12);
    assert_eq!(g.name, 12);
    assert_eq!(ZxdgImporterV2Global::new(13).name, 13);
    let exporter = ZxdgExporterV2 { id: ObjectId(40), version: 1 };
    assert!(matches!(
        exporter.export_toplevel(ObjectId(41), ObjectId(7), false, "h".to_string()),
        Err(ZxdgExporterV2Error::InvalidSurface(ObjectId(7)))
    ));
    let exported: ZxdgExportedV2 = exporter.export_toplevel(ObjectId(41), ObjectId(7), true, "abc".to_string()).ok().unwrap();
    let e: Event = exported.send_handle();
    assert_eq!(e.object, ObjectId(41));
    assert_eq!(e.encode().0, vec![41, 0, 0, 0, 0, 0, 16, 0, 4, 0, 0, 0, b'a', b'b', b'c', 0]);
    let imported = ZxdgImportedV2 { id: ObjectId(42), surface: None, version: 1 };
    assert_eq!(imported.send_destroyed().encode().0, words(&[42, 8 << 16]));
}

#[test]
fn test_surface_requests() {
    let mut s = TestSurface { id: ObjectId(8), destroyed: false };
    assert_eq!(s.attach(ObjectId(9)).encode().0, words(&[8, (20 << 16) | 1, 9, 0, 0]));
    assert_eq!(s.commit().encode().0, words(&[8, (8 << 16) | 6]));
    let first = s.destroy();
    assert!(matches!(first, Some(Event { opcode: 0, .. })));
    assert!(s.destroy().is_none());
}

#[test]
fn xwayland_arguments() {
    let (prog, args) = build_args();
    assert_eq!(prog, "Xwayland");
    assert_eq!(
        args,
        vec!["-terminate", "-rootless", "-verbose", "10", "-displayfd", "3", "-listenfd", "4", "-wm", "5"]
    );
}

#[test]
fn offered_mime_types_are_announced_once() {
    let mut s = source(false);
    s.offers = vec![ObjectId(30), ObjectId(31)];
    s.offer("text/plain");
    assert_eq!(s.mime_types, vec!["text/plain".to_string()]);
    assert_eq!(s.outbox.len(), 2);
    assert!(matches!(&s.outbox[1], SourceAction::OfferMimeType { offer: ObjectId(31), mime_type } if mime_type == "text/plain"));
    s.offer("text/plain");
    assert_eq!(s.mime_types.len(), 1);
    assert_eq!(s.outbox.len(), 2);
    s.offer("text/html");
    assert_eq!(s.mime_types.len(), 2);
    assert_eq!(s.outbox.len(), 4);
}

#[test]
fn import_keeps_the_named_surface() {
    let importer = wirecore::foreign::ZxdgImporterV2 { id: ObjectId(60), version: 1 };
    let (imported, event) = importer.import_toplevel(ObjectId(61), Some(ObjectId(7)));
    assert_eq!(imported.surface, Some(ObjectId(7)));
    assert!(event.is_none());
    let (imported, event) = importer.import_toplevel(ObjectId(62), None);
    assert_eq!(imported.surface, None);
    assert_eq!(event.unwrap().encode().0, words(&[62, 8 << 16]));
}
