use vstd::prelude::*;
use std::rc::Rc;
use uapi::OwnedFd;
use crate::schema::{
    field_types, fields_view, lined_message_view, messages_view, Lined, Message, MessageV, Type,
};
use crate::wire::{
    check_header, dec_frame, decode_frame, header_of, types_view, args_view, DecodeError, Decoded,
    Header, ToolClientError,
};
use vstd::bytes::{spec_u32_from_le_bytes, u32_from_le_bytes};

verus! {

/// The index of the first of `ms`, from `i` on, whose opcode is `opcode`.
pub open spec fn message_index(ms: Seq<(u32, MessageV)>, opcode: u32, i: int) -> Option<int>
    decreases ms.len() - i,
{
    if i < 0 || i >= ms.len() {
        None
    } else if ms[i].1.id == opcode {
        Some(i)
    } else {
        message_index(ms, opcode, i + 1)
    }
}

/// Decoding a frame addressed to an interface whose messages are `ms`: the message
/// is chosen by the frame's opcode, its fields by that message's field types.
pub open spec fn dec_request(ms: Seq<(u32, MessageV)>, s: Seq<u8>, fds: Seq<Rc<OwnedFd>>) -> Result<
    (int, Header, Seq<crate::wire::ArgV>, Seq<Rc<OwnedFd>>),
    ToolClientError,
> {
    if s.len() < 8 {
        Err(ToolClientError::Parsing(DecodeError::UnexpectedEof))
    } else {
        let h = header_of(
            spec_u32_from_le_bytes(s.subrange(0, 4)),
            spec_u32_from_le_bytes(s.subrange(4, 8)),
        );
        match check_header(h) {
            Err(e) => Err(e),
            Ok(h) => match message_index(ms, h.opcode, 0) {
                None => Err(ToolClientError::Parsing(DecodeError::UnknownOpcode)),
                Some(i) => match dec_frame(field_types(ms[i].1.fields), s, fds) {
                    Err(e) => Err(e),
                    Ok((h2, args, rest)) => Ok((i, h2, args, rest)),
                },
            },
        }
    }
}

proof fn lemma_message_index(ms: Seq<(u32, MessageV)>, opcode: u32, j: int)
    requires
        0 <= j,
    ensures
        message_index(ms, opcode, j) matches Some(i) ==> j <= i < ms.len() && ms[i].1.id == opcode,
    decreases ms.len() - j,
{
    if j < ms.len() && ms[j].1.id != opcode {
        lemma_message_index(ms, opcode, j + 1);
    }
}

fn find_message(messages: &Vec<Lined<Message>>, opcode: u32) -> (r: Option<usize>)
    ensures
        r matches Some(k) ==> message_index(messages_view(messages@), opcode, 0) == Some(k as int),
        r is None ==> message_index(messages_view(messages@), opcode, 0) is None,
{
    let ghost ms = messages_view(messages@);
    let mut i: usize = 0;
    while i < messages.len()
        invariant
            i <= messages@.len(),
            ms == messages_view(messages@),
            message_index(ms, opcode, 0) == message_index(ms, opcode, i as int),
        decreases messages@.len() - i,
    {
        if messages[i].val.id.val == opcode {
            return Some(i);
        }
        i = i + 1;
    }
    None
}

fn message_types(message: &Message) -> (r: Vec<Type>)
    ensures
        types_view(r@) == field_types(message@.fields),
{
    let ghost ft = field_types(message@.fields);
    let mut out: Vec<Type> = Vec::new();
    let mut i: usize = 0;
    while i < message.fields.len()
        invariant
            i <= message.fields@.len(),
            ft == field_types(fields_view(message.fields@)),
            types_view(out@) == ft.take(i as int),
        decreases message.fields@.len() - i,
    {
        let t = message.fields[i].val.ty.val.copy();
        proof {
            assert(ft[i as int] == message.fields@[i as int].val.ty.val@);
        }
        let ghost before = out@;
        out.push(t);
        proof {
            assert(types_view(out@) =~= types_view(before).push(t@));
            assert(ft.take(i + 1) =~= ft.take(i as int).push(ft[i as int]));
        }
        i = i + 1;
    }
    proof {
        assert(ft.take(i as int) =~= ft);
    }
    out
}

/// Decodes a frame addressed to an object whose interface has the compiled
/// `messages`: the index of the message that the opcode names, and the decoded frame.
pub fn decode_request(messages: &Vec<Lined<Message>>, frame: &[u8], fds: Vec<Rc<OwnedFd>>) -> (r: Result<
    (usize, Decoded),
    ToolClientError,
>)
    ensures
        match dec_request(
            messages_view(messages@),
            frame@,
            fds@,
        ) {
            Ok((i, h, args, rest)) => r matches Ok((j, d)) && j == i && d.header == h && args_view(
                d.args@,
            ) == args && d.fds@ == rest,
            Err(e) => r matches Err(x) && x == e,
        },
{
    if frame.len() < 8 {
        return Err(ToolClientError::Parsing(DecodeError::UnexpectedEof));
    }
    let w0 = u32_from_le_bytes(&frame[0..4]);
    let w1 = u32_from_le_bytes(&frame[4..8]);
    let h = match crate::wire::parse_header(w0, w1) {
        Ok(h) => h,
        Err(e) => return Err(e),
    };
    proof {
        lemma_message_index(messages_view(messages@), h.opcode, 0);
    }
    let i = match find_message(messages, h.opcode) {
        Some(i) => i,
        None => return Err(ToolClientError::Parsing(DecodeError::UnknownOpcode)),
    };
    let types = message_types(&messages[i].val);
    proof {
        let ms = messages_view(messages@);
        assert(ms[i as int].1 == messages@[i as int].val@);
        assert(h == header_of(
            spec_u32_from_le_bytes(frame@.subrange(0, 4)),
            spec_u32_from_le_bytes(frame@.subrange(4, 8)),
        ));
    }
    match decode_frame(&types, frame, fds) {
        Ok(d) => Ok((i, d)),
        Err(e) => Err(e),
    }
}

} // verus!
