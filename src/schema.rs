use vstd::prelude::*;

verus! {

/// A value tagged with the schema line it was read from.
#[derive(Debug)]
pub struct Lined<T> {
    pub line: u32,
    pub val: T,
}

/// The wire type of a message field.
#[derive(Debug)]
pub enum Type {
    /// A reference to an object of the named interface, in PascalCase.
    Id(Vec<u8>),
    U32,
    I32,
    Str,
    BStr,
    Fixed,
    Fd,
    Array(Box<Type>),
}

/// The mathematical form of a `Type`.
pub enum TypeV {
    Id(Seq<u8>),
    U32,
    I32,
    Str,
    BStr,
    Fixed,
    Fd,
    Array(Box<TypeV>),
}

/// Whether `t` may stand as the element type of an array.
pub open spec fn is_array_elem(t: TypeV) -> bool {
    match t {
        TypeV::Id(_) | TypeV::U32 | TypeV::I32 | TypeV::Fixed => true,
        _ => false,
    }
}

/// Whether `t` obeys the array restriction: only numeric element types, no nesting.
pub open spec fn well_formed_type(t: TypeV) -> bool {
    match t {
        TypeV::Array(e) => is_array_elem(*e),
        _ => true,
    }
}

/// Whether a field of type `t` borrows from the receive buffer when decoded.
pub open spec fn is_reference_type(t: TypeV) -> bool {
    match t {
        TypeV::Str | TypeV::BStr | TypeV::Array(_) => true,
        _ => false,
    }
}

impl View for Type {
    type V = TypeV;

    open spec fn view(&self) -> TypeV
        decreases self,
    {
        match self {
            Type::Id(n) => TypeV::Id(n@),
            Type::U32 => TypeV::U32,
            Type::I32 => TypeV::I32,
            Type::Str => TypeV::Str,
            Type::BStr => TypeV::BStr,
            Type::Fixed => TypeV::Fixed,
            Type::Fd => TypeV::Fd,
            Type::Array(e) => TypeV::Array(Box::new((**e).view())),
        }
    }
}

/// One field of a message.
#[derive(Debug)]
pub struct Field {
    pub name: Vec<u8>,
    pub ty: Lined<Type>,
}

pub struct FieldV {
    pub name: Seq<u8>,
    pub ty: TypeV,
    pub ty_line: u32,
    pub line: u32,
}

/// One message of an interface.
#[derive(Debug)]
pub struct Message {
    pub name: Vec<u8>,
    pub camel_name: Vec<u8>,
    pub id: Lined<u32>,
    pub fields: Vec<Lined<Field>>,
}

pub struct MessageV {
    pub name: Seq<u8>,
    pub camel_name: Seq<u8>,
    pub id: u32,
    pub id_line: u32,
    pub fields: Seq<FieldV>,
}

pub open spec fn field_view(f: Lined<Field>) -> FieldV {
    FieldV { name: f.val.name@, ty: f.val.ty.val@, ty_line: f.val.ty.line, line: f.line }
}

/// The field views of a message's fields, in order.
pub open spec fn fields_view(fs: Seq<Lined<Field>>) -> Seq<FieldV> {
    fs.map_values(|f: Lined<Field>| field_view(f))
}

impl View for Message {
    type V = MessageV;

    open spec fn view(&self) -> MessageV {
        MessageV {
            name: self.name@,
            camel_name: self.camel_name@,
            id: self.id.val,
            id_line: self.id.line,
            fields: fields_view(self.fields@),
        }
    }
}

/// A message with the line it starts in.
pub open spec fn lined_message_view(m: Lined<Message>) -> (u32, MessageV) {
    (m.line, m.val@)
}

/// The messages of a schema with their lines.
pub open spec fn messages_view(ms: Seq<Lined<Message>>) -> Seq<(u32, MessageV)> {
    ms.map_values(|m: Lined<Message>| lined_message_view(m))
}

/// The field types of a message, in declaration order.
pub open spec fn field_types(fields: Seq<FieldV>) -> Seq<TypeV> {
    fields.map_values(|f: FieldV| f.ty)
}

/// Whether any field of the message is of a reference kind.
pub open spec fn has_reference_type(fields: Seq<FieldV>) -> bool {
    exists|i: int| 0 <= i < fields.len() && is_reference_type(#[trigger] fields[i].ty)
}

impl Type {
    /// A copy of this type.
    pub fn copy(&self) -> (r: Type)
        ensures
            r@ == self@,
        decreases self,
    {
        match self {
            Type::Id(n) => Type::Id(n.clone()),
            Type::U32 => Type::U32,
            Type::I32 => Type::I32,
            Type::Str => Type::Str,
            Type::BStr => Type::BStr,
            Type::Fixed => Type::Fixed,
            Type::Fd => Type::Fd,
            Type::Array(e) => Type::Array(Box::new((**e).copy())),
        }
    }

    pub fn is_reference(&self) -> (r: bool)
        ensures
            r == is_reference_type(self@),
    {
        match self {
            Type::Str | Type::BStr | Type::Array(_) => true,
            _ => false,
        }
    }
}

} // verus!
