use vstd::prelude::*;
use crate::event::{
    Event, GlobalName, ObjectId, WlBufferId, WlRegistryId, WlSurfaceId, ZxdgExportedV2Id,
    ZxdgExporterV2Id, ZxdgImportedV2Id, ZxdgImporterV2Id,
};
use crate::pointer::event_of;
use crate::wire::{Arg, ArgV};

verus! {

/// The opcode of `zxdg_exported_v2.handle`.
pub const HANDLE: u16 = 0;
/// The opcode of `zxdg_imported_v2.destroyed`.
pub const DESTROYED: u16 = 0;

/// A toplevel exported under an opaque handle.
pub struct ZxdgExportedV2 {
    pub id: ZxdgExportedV2Id,
    pub handle: String,
    pub version: u32,
}

impl ZxdgExportedV2 {
    /// The event that tells the client the handle of the export.
    pub fn send_handle(&self) -> (r: Event)
        ensures
            r@ == event_of(self.id, HANDLE, seq![ArgV::Str(self.handle@)]),
    {
        let r = Event { object: self.id, opcode: HANDLE, args: vec![Arg::Str(self.handle.clone())] };
        proof {
            assert(r@.args =~= seq![ArgV::Str(self.handle@)]);
        }
        r
    }
}

/// A toplevel imported from another client, by its handle.
pub struct ZxdgImportedV2 {
    pub id: ZxdgImportedV2Id,
    /// The imported surface; none when the handle named no export.
    pub surface: Option<WlSurfaceId>,
    pub version: u32,
}

impl ZxdgImportedV2 {
    /// The event that tells the client the import is gone.
    pub fn send_destroyed(&self) -> (r: Event)
        ensures
            r@ == event_of(self.id, DESTROYED, seq![]),
    {
        let r = Event { object: self.id, opcode: DESTROYED, args: Vec::new() };
        proof {
            assert(r@.args =~= Seq::<ArgV>::empty());
        }
        r
    }
}

/// Why an import request failed.
#[derive(Debug, Clone, Copy, PartialEq, Eq, Structural)]
pub enum ZxdgImportedV2Error {
    /// The surface is not a toplevel.
    InvalidSurface(WlSurfaceId),
}

/// Why an export request failed.
#[derive(Debug, Clone, Copy, PartialEq, Eq, Structural)]
pub enum ZxdgExporterV2Error {
    /// The surface is not a toplevel.
    InvalidSurface(WlSurfaceId),
}

/// The global through which clients export toplevels.
pub struct ZxdgExporterV2Global {
    pub name: GlobalName,
}

impl ZxdgExporterV2Global {
    pub fn new(name: GlobalName) -> (r: Self)
        ensures
            r.name == name,
    {
        ZxdgExporterV2Global { name }
    }
}

/// A client's binding of the exporter global.
pub struct ZxdgExporterV2 {
    pub id: ZxdgExporterV2Id,
    pub version: u32,
}

impl ZxdgExporterV2 {
    /// Exports `surface` under `handle` as object `id`; only a toplevel can be exported.
    pub fn export_toplevel(&self, id: ZxdgExportedV2Id, surface: WlSurfaceId, is_toplevel: bool, handle: String) -> (r: Result<ZxdgExportedV2, ZxdgExporterV2Error>)
        ensures
            !is_toplevel ==> (r matches Err(e) && e == ZxdgExporterV2Error::InvalidSurface(surface)),
            is_toplevel ==> (r matches Ok(x) && x.id == id && x.handle@ == handle@ && x.version
                == self.version),
    {
        if !is_toplevel {
            return Err(ZxdgExporterV2Error::InvalidSurface(surface));
        }
        Ok(ZxdgExportedV2 { id, handle, version: self.version })
    }
}

/// The global through which clients import toplevels.
pub struct ZxdgImporterV2Global {
    pub name: GlobalName,
}

impl ZxdgImporterV2Global {
    pub fn new(name: GlobalName) -> (r: Self)
        ensures
            r.name == name,
    {
        ZxdgImporterV2Global { name }
    }
}

/// A client's binding of the importer global.
pub struct ZxdgImporterV2 {
    pub id: ZxdgImporterV2Id,
    pub version: u32,
}

impl ZxdgImporterV2 {
    /// Imports, as object `id`, the toplevel that the client's handle named: `surface`
    /// when the handle named an export, else an empty import whose destruction is
    /// announced at once.
    pub fn import_toplevel(&self, id: ZxdgImportedV2Id, surface: Option<WlSurfaceId>) -> (r: (
        ZxdgImportedV2,
        Option<Event>,
    ))
        ensures
            r.0.id == id,
            r.0.surface == surface,
            r.0.version == self.version,
            surface is Some ==> r.1 is None,
            surface is None ==> (r.1 matches Some(e) && e@ == event_of(id, DESTROYED, seq![])),
    {
        let imported = ZxdgImportedV2 { id, surface, version: self.version };
        match surface {
            Some(_) => (imported, None),
            None => {
                let e = imported.send_destroyed();
                (imported, Some(e))
            },
        }
    }
}

/// The opcodes of `wl_surface` requests.
pub const SURFACE_DESTROY: u16 = 0;
pub const SURFACE_ATTACH: u16 = 1;
pub const SURFACE_COMMIT: u16 = 6;

/// A surface as a test client holds it.
pub struct TestSurface {
    pub id: WlSurfaceId,
    pub destroyed: bool,
}

impl TestSurface {
    /// The destroy request, the first time only.
    pub fn destroy(&mut self) -> (r: Option<Event>)
        ensures
            final(self).id == old(self).id,
            final(self).destroyed,
            old(self).destroyed ==> r is None,
            !old(self).destroyed ==> (r matches Some(e) && e@ == event_of(
                old(self).id,
                SURFACE_DESTROY,
                seq![],
            )),
    {
        if self.destroyed {
            return None;
        }
        self.destroyed = true;
        let r = Event { object: self.id, opcode: SURFACE_DESTROY, args: Vec::new() };
        proof {
            assert(r@.args =~= Seq::<ArgV>::empty());
        }
        Some(r)
    }

    /// The request that attaches `buffer_id` at offset (0, 0).
    pub fn attach(&self, buffer_id: WlBufferId) -> (r: Event)
        ensures
            r@ == event_of(
                self.id,
                SURFACE_ATTACH,
                seq![ArgV::Object(buffer_id.0), ArgV::Int(0), ArgV::Int(0)],
            ),
    {
        let r = Event {
            object: self.id,
            opcode: SURFACE_ATTACH,
            args: vec![Arg::Object(buffer_id.0), Arg::Int(0), Arg::Int(0)],
        };
        proof {
            assert(r@.args =~= seq![ArgV::Object(buffer_id.0), ArgV::Int(0), ArgV::Int(0)]);
        }
        r
    }

    /// The commit request.
    pub fn commit(&self) -> (r: Event)
        ensures
            r@ == event_of(self.id, SURFACE_COMMIT, seq![]),
    {
        let r = Event { object: self.id, opcode: SURFACE_COMMIT, args: Vec::new() };
        proof {
            assert(r@.args =~= Seq::<ArgV>::empty());
        }
        r
    }
}

/// The singletons a tool client binds: the registry and the name of the
/// compositor's own global.
pub struct Singletons {
    pub registry: WlRegistryId,
    pub jay_compositor: u32,
}

/// The program and arguments that start Xwayland: it reports its display on fd 3,
/// listens on fd 4, and talks to the window manager on fd 5.
pub fn build_args() -> (r: (String, Vec<String>))
    ensures
        r.0@ == "Xwayland"@,
        r.1@.len() == 10,
        r.1@[0]@ == "-terminate"@,
        r.1@[1]@ == "-rootless"@,
        r.1@[2]@ == "-verbose"@,
        r.1@[3]@ == "10"@,
        r.1@[4]@ == "-displayfd"@,
        r.1@[5]@ == "3"@,
        r.1@[6]@ == "-listenfd"@,
        r.1@[7]@ == "4"@,
        r.1@[8]@ == "-wm"@,
        r.1@[9]@ == "5"@,
{
    let prog = "Xwayland".to_owned();
    let args = vec![
        "-terminate".to_owned(),
        "-rootless".to_owned(),
        "-verbose".to_owned(),
        "10".to_owned(),
        "-displayfd".to_owned(),
        "3".to_owned(),
        "-listenfd".to_owned(),
        "4".to_owned(),
        "-wm".to_owned(),
        "5".to_owned(),
    ];
    (prog, args)
}

} // verus!
