//! Receiving events of the display.

use vstd::prelude::*;

use super::model::{is_display_event, HandleView};
use super::Handle;
use crate::map::lemma_map_wf;
use crate::protocol::{
    arg_views, fits_signature, has_type, lemma_display_messages, wl_display_interface_spec,
    Argument, ArgumentView, ErrorView, ProtocolError, WaylandError,
};
use crate::text::text_from_bytes;
use crate::wire::Message;

verus! {

/// A message that fits the signature of an event of the display carries what it should.
pub proof fn lemma_display_event_shape(opcode: u16, args: Seq<ArgumentView<u32>>)
    requires
        opcode < wl_display_interface_spec().events@.len(),
        fits_signature(wl_display_interface_spec().events@[opcode as int].signature@, args),
    ensures
        is_display_event(opcode, args),
{
    lemma_display_messages();
    let signature = wl_display_interface_spec().events@[opcode as int].signature@;
    assert(has_type(args[0], signature[0]));
    if opcode == 0 {
        assert(has_type(args[1], signature[1]));
        assert(has_type(args[2], signature[2]));
    }
}

/// Giving up an id keeps the state well formed.
pub proof fn lemma_id_deleted_wf<D>(handle: HandleView<D>, id: u32)
    requires
        handle.wf(),
    ensures
        handle.id_deleted(id).wf(),
{
    if handle.map.objects.contains_key(id) {
        let after = handle.id_deleted(id);
        lemma_map_wf(handle.map, id, after.map.objects[id]);
        assert forall|other: u32| #[trigger] after.map.objects.contains_key(other) implies (
        after.map.objects[other].data.user_data is None <==> other == 1) by {
            assert(handle.map.objects.contains_key(other));
        }
    }
}

/// Whether a message is an event of the display.
pub(super) fn check_display_event(opcode: u16, args: &[Argument<u32>]) -> (r: bool)
    ensures
        r == is_display_event(opcode, arg_views(args@)),
{
    if opcode == 0 && args.len() == 3 {
        assert(arg_views(args@)[0] == args@[0]@);
        assert(arg_views(args@)[1] == args@[1]@);
        assert(arg_views(args@)[2] == args@[2]@);
        matches!(
            (&args[0], &args[1], &args[2]),
            (Argument::Object(_), Argument::Uint(_), Argument::Str(_))
        )
    } else if opcode == 1 && args.len() == 1 {
        assert(arg_views(args@)[0] == args@[0]@);
        matches!(&args[0], Argument::Uint(_))
    } else {
        false
    }
}

impl<D> Handle<D> {
    /// Takes note of an error that the server reports.
    pub fn record_server_error(&mut self, object_id: u32, code: u32, message: String)
        ensures
            final(self)@ == old(self)@.server_error(object_id, code, message@),
    {
        let object_interface: &'static str = match self.map.find(object_id) {
            Some(object) => object.interface.name,
            None => "<unknown>",
        };
        self.last_error = Some(
            WaylandError::Protocol(ProtocolError { code, object_id, object_interface, message }),
        );
    }

    /// Takes note that the server has given up an id.
    pub fn delete_id(&mut self, id: u32)
        requires
            old(self)@.wf(),
        ensures
            final(self)@.wf(),
            final(self)@ == old(self)@.id_deleted(id),
            !old(self)@.map.objects.contains_key(id) ==> final(self)@ == old(self)@,
            old(self)@.map.objects.contains_key(id) ==> {
                let object = old(self)@.map.objects[id];
                &&& final(self)@.map.objects.contains_key(id) <==> !object.data.client_destroyed
                &&& !object.data.client_destroyed
                    ==> final(self)@.map.objects[id].data.server_destroyed
            },
    {
        proof {
            lemma_id_deleted_wf(self@, id);
        }
        let mut client_destroyed: bool = false;
        match self.map.get_mut(id) {
            Some(object) => {
                object.data.server_destroyed = true;
                client_destroyed = object.data.client_destroyed;
            },
            None => {},
        }
        if client_destroyed {
            self.map.remove(id);
        }
        assert(self@ =~= old(self)@.id_deleted(id));
    }

    /// Handles an event of the display.
    pub fn handle_display_event(&mut self, message: &Message)
        requires
            old(self)@.wf(),
            is_display_event(message.opcode, message.args@),
        ensures
            final(self)@.wf(),
            final(self)@ == old(self)@.display_event(message.opcode, message.args@),
            message.opcode == 0 && vstd::utf8::valid_utf8(message.args@[2]->Str_0) ==> final(self)@
                == old(self)@.server_error(
                message.args@[0]->Object_0,
                message.args@[1]->Uint_0,
                vstd::utf8::decode_utf8(message.args@[2]->Str_0),
            ),
            message.opcode == 0 ==> (final(self)@.last_error matches Some(
                ErrorView::Protocol { code, object_id, .. },
            ) && code == message.args@[1]->Uint_0 && object_id == message.args@[0]->Object_0),
            message.opcode == 1 ==> {
                let id = message.args@[0]->Uint_0;
                let known = old(self)@.map.objects.contains_key(id);
                let object = old(self)@.map.objects[id];
                &&& final(self)@.map.objects.contains_key(id) <==> known
                    && !object.data.client_destroyed
                &&& known && !object.data.client_destroyed
                    ==> final(self)@.map.objects[id].data.server_destroyed
                &&& final(self)@.last_error == old(self)@.last_error
            },
    {
        let args: &[Argument<u32>] = message.args.as_slice();
        proof {
            assert(message.args@[0] == args@[0]@);
            if message.opcode == 0 {
                assert(message.args@[1] == args@[1]@);
                assert(message.args@[2] == args@[2]@);
            }
        }
        if message.opcode == 0 {
            match (&args[0], &args[1], &args[2]) {
                (Argument::Object(object), Argument::Uint(code), Argument::Str(text)) => {
                    let text: String = text_from_bytes(text.as_slice());
                    self.record_server_error(*object, *code, text);
                },
                _ => {},
            }
        } else {
            match &args[0] {
                Argument::Uint(id) => {
                    self.delete_id(*id);
                },
                _ => {},
            }
        }
    }
}

} // verus!
