use vstd::prelude::*;
use std::rc::Rc;
use uapi::OwnedFd;
use crate::wire::{
    arg_fits, args_fds, args_view, enc_args, enc_frame, encode_message, Arg, ArgV,
};

verus! {

/// An object id on the wire; 0 is the reserved "no object" value.
#[derive(Copy, Clone, Debug, PartialEq, Eq, Structural, Hash)]
pub struct ObjectId(pub u32);

pub type WlSurfaceId = ObjectId;

pub type WlBufferId = ObjectId;

pub type WlPointerId = ObjectId;

pub type WlDataSourceId = ObjectId;

pub type WlDataOfferId = ObjectId;

pub type WlRegistryId = ObjectId;

pub type ZxdgExportedV2Id = ObjectId;

pub type ZxdgImportedV2Id = ObjectId;

pub type ZxdgExporterV2Id = ObjectId;

pub type ZxdgImporterV2Id = ObjectId;

/// The name under which a global is advertised.
pub type GlobalName = u32;

/// A message ready to be formatted: its target object, its opcode and its fields.
#[derive(Debug)]
pub struct Event {
    pub object: ObjectId,
    pub opcode: u16,
    pub args: Vec<Arg>,
}

pub struct EventV {
    pub object: u32,
    pub opcode: u16,
    pub args: Seq<ArgV>,
}

impl View for Event {
    type V = EventV;

    open spec fn view(&self) -> EventV {
        EventV { object: self.object.0, opcode: self.opcode, args: args_view(self.args@) }
    }
}

impl Event {
    /// Formats the message: the frame's bytes and the descriptors sent with it.
    pub fn encode(self) -> (r: (Vec<u8>, Vec<Rc<OwnedFd>>))
        requires
            enc_args(self@.args).len() + 8 <= 0xffff,
            forall|i: int| 0 <= i < self.args@.len() ==> arg_fits(#[trigger] self.args@[i]@),
        ensures
            r.0@ == enc_frame(self@.object, self@.opcode, enc_args(self@.args)),
            r.1@ == args_fds(self@.args),
    {
        encode_message(self.object.0, self.opcode, self.args)
    }
}

} // verus!
