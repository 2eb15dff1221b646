//! Writes nodes back in the definition format that the loader reads.

use vstd::prelude::*;
use crate::node_id::{NodeId, hex_digits, push_hex_digits};
use crate::nodes::ScaleNode;
use crate::state::Attribute;

verus! {

/// What `ron::to_string` writes for a string: its quoted, escaped form.
pub uninterp spec fn ron_encoded(s: Seq<char>) -> Seq<char>;

/// Relies on `ron::to_string` on a `str`: the string quoted and escaped
/// as RON writes it. The writer only writes into a `Vec`, so it does not
/// fail.
#[verifier::external_body]
fn encode_string(s: &str) -> (r: Option<String>)
    ensures
        r is Some,
        r.unwrap()@ == ron_encoded(s@),
{
    ron::to_string(s).ok()
}

/// A number as `0x` and sixteen hexadecimal digits.
pub open spec fn hex_text(v: u64) -> Seq<char> {
    "0x"@ + hex_digits(v)
}

/// An attribute as the loader reads it.
pub open spec fn attr_text(a: Attribute) -> Seq<char> {
    match a {
        Attribute::Delta => "Delta"@,
        Attribute::Frames => "Frames"@,
        Attribute::LastFps => "LastFPS"@,
        Attribute::TimeThisFrame => "TimeThisFrame"@,
        Attribute::IndexId(n) => "IndexID("@ + hex_text(n as u64) + ")"@,
        Attribute::Custom(n) => "Custom("@ + hex_text(n) + ")"@,
    }
}

/// The prefix that binds an identity, where one is bound.
pub open spec fn id_prefix(id: Option<NodeId>) -> Seq<char> {
    match id {
        Some(i) => "NodeID(\""@ + hex_text(i.0) + "\"): "@,
        None => Seq::empty(),
    }
}

/// The definition text of a scale node, followed by a separator.
pub open spec fn scale_definition(id: Option<NodeId>, encoded_name: Seq<char>, scale: Attribute, next: NodeId) -> Seq<char> {
    id_prefix(id) + "ScaleNode(\n\tname: "@ + encoded_name + ",\n\tscale: "@ + attr_text(scale)
        + ",\n\tnext: NodeID(\""@ + hex_text(next.0) + "\"),\n),\n"@
}

fn push_hex(out: &mut String, v: u64)
    ensures
        final(out)@ == old(out)@ + hex_text(v),
{
    let ghost head = out@;
    out.append("0x");
    push_hex_digits(out, v);
    assert(out@ =~= head + hex_text(v));
}

fn push_attr(out: &mut String, a: Attribute)
    ensures
        final(out)@ == old(out)@ + attr_text(a),
{
    let ghost head = out@;
    match a {
        Attribute::Delta => out.append("Delta"),
        Attribute::Frames => out.append("Frames"),
        Attribute::LastFps => out.append("LastFPS"),
        Attribute::TimeThisFrame => out.append("TimeThisFrame"),
        Attribute::IndexId(n) => {
            out.append("IndexID(");
            push_hex(out, n as u64);
            out.append(")");
            assert(out@ =~= head + attr_text(a));
        },
        Attribute::Custom(n) => {
            out.append("Custom(");
            push_hex(out, n);
            out.append(")");
            assert(out@ =~= head + attr_text(a));
        },
    }
}

impl ScaleNode {
    /// Appends the node's definition, in the form `load` reads, to `data`.
    pub fn serialize(&self, data: &mut String)
        ensures
            final(data)@ == old(data)@ + scale_definition(self.spec_id(), ron_encoded(self.spec_name()), self.spec_scale(), self.spec_next()),
    {
        let name = match encode_string(self.name()) {
            Some(x) => x,
            None => return,
        };
        let ghost head = data@;
        if let Some(i) = self.bound_id() {
            data.append("NodeID(\"");
            push_hex(data, i.0);
            data.append("\"): ");
        }
        let ghost mid = data@;
        assert(mid == head + id_prefix(self.spec_id()));
        data.append("ScaleNode(\n\tname: ");
        data.append(name.as_str());
        data.append(",\n\tscale: ");
        push_attr(data, self.scale());
        data.append(",\n\tnext: NodeID(\"");
        push_hex(data, self.next().0);
        data.append("\"),\n),\n");
        assert(data@ =~= head + scale_definition(self.spec_id(), ron_encoded(self.spec_name()), self.spec_scale(), self.spec_next()));
    }
}

} // verus!
