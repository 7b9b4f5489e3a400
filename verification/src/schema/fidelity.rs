//! What the two descriptions keep of a register map.

use crate::assemble::{assembled, table_named, PageModel};
use crate::outcome::{all_or_first, lemma_all_or_first};
use crate::schema::base::{tag_value, FieldModel, RegisterModel};
use crate::schema::ipxact;
use crate::schema::regvue;
use vstd::prelude::*;

verus! {

/// Vendor, library, name and version go unchanged from the sheet `version`
/// into the component, and from there into both descriptions; only the
/// register description for viewers writes a `v` before the version, in its
/// schema and at its entry point.
pub proof fn lemma_scalars_are_kept(pages: Seq<PageModel>)
    requires
        assembled(pages) is Ok,
    ensures
        ({
            let c = assembled(pages)->Ok_0;
            let sheet = table_named(pages, "version"@)->0;
            &&& tag_value(sheet, "VENDOR"@) == Ok::<Seq<char>, crate::error::ErrorModel>(c.vendor)
            &&& tag_value(sheet, "LIBRARY"@) == Ok::<Seq<char>, crate::error::ErrorModel>(c.library)
            &&& tag_value(sheet, "NAME"@) == Ok::<Seq<char>, crate::error::ErrorModel>(c.name)
            &&& tag_value(sheet, "VERSION"@) == Ok::<Seq<char>, crate::error::ErrorModel>(c.version)
            &&& ipxact::component_out(c) matches Ok(x) ==> {
                &&& x.vendor == c.vendor
                &&& x.library == c.library
                &&& x.name == c.name
                &&& x.version == c.version
            }
            &&& regvue::document_of(c) matches Ok(d) ==> {
                &&& d.root.desc == c.name
                &&& d.root.version == Some("v"@ + c.version)
                &&& d.schema.version == "v"@ + c.version
            }
        }),
{
}

/// The component description leaves out exactly the fields that only fill
/// space: none of its fields has such a name, each of its fields is a field
/// of the register, and every field of the register with another name is
/// among them.
pub proof fn lemma_space_fillers_are_left_out(fields: Seq<FieldModel>)
    requires
        ipxact::fields_out(fields) is Ok,
    ensures
        forall|k: int|
            0 <= k < ipxact::fields_out(fields)->Ok_0.len() ==> !ipxact::is_reserved(
                (#[trigger] ipxact::fields_out(fields)->Ok_0[k]).name,
            ) && exists|i: int|
                0 <= i < fields.len() && ipxact::field_out(#[trigger] fields[i]) == Ok::<
                    ipxact::FieldModel,
                    crate::error::ErrorModel,
                >(ipxact::fields_out(fields)->Ok_0[k]),
        forall|i: int|
            0 <= i < fields.len() && !ipxact::is_reserved((#[trigger] fields[i]).name) ==> exists|k: int|
                0 <= k < ipxact::fields_out(fields)->Ok_0.len() && ipxact::field_out(fields[i]) == Ok::<
                    ipxact::FieldModel,
                    crate::error::ErrorModel,
                >(#[trigger] ipxact::fields_out(fields)->Ok_0[k]),
    decreases fields.len(),
{
    let out = ipxact::fields_out(fields)->Ok_0;
    if fields.len() > 0 {
        let p = fields.drop_last();
        let last = fields.last();
        let items = ipxact::field_parts(fields);
        assert(items.drop_last() =~= ipxact::field_parts(p));
        assert(items.last() == ipxact::field_part(last));
        let parts_p = all_or_first(ipxact::field_parts(p))->Ok_0;
        let part = ipxact::field_part(last)->Ok_0;
        let parts = all_or_first(items)->Ok_0;
        assert(parts == parts_p.push(part));
        assert(parts.drop_last() =~= parts_p);
        let out_p = ipxact::fields_out(p)->Ok_0;
        assert(out == out_p + part);
        lemma_space_fillers_are_left_out(p);
        assert forall|k: int| 0 <= k < out.len() implies !ipxact::is_reserved((#[trigger] out[k]).name)
            && exists|i: int|
            0 <= i < fields.len() && ipxact::field_out(#[trigger] fields[i]) == Ok::<
                ipxact::FieldModel,
                crate::error::ErrorModel,
            >(out[k]) by {
            if k < out_p.len() {
                assert(out[k] == out_p[k]);
                let i = choose|i: int|
                    0 <= i < p.len() && ipxact::field_out(#[trigger] p[i]) == Ok::<
                        ipxact::FieldModel,
                        crate::error::ErrorModel,
                    >(out_p[k]);
                assert(fields[i] == p[i]);
            } else {
                assert(out[k] == part[k - out_p.len()]);
                assert(ipxact::field_out(fields[fields.len() - 1]) == Ok::<
                    ipxact::FieldModel,
                    crate::error::ErrorModel,
                >(out[k]));
            }
        }
        assert forall|i: int|
            0 <= i < fields.len() && !ipxact::is_reserved((#[trigger] fields[i]).name) implies exists|
            k: int,
        |
            0 <= k < out.len() && ipxact::field_out(fields[i]) == Ok::<
                ipxact::FieldModel,
                crate::error::ErrorModel,
            >(#[trigger] out[k]) by {
            if i < p.len() {
                assert(fields[i] == p[i]);
                let k = choose|k: int|
                    0 <= k < out_p.len() && ipxact::field_out(p[i]) == Ok::<
                        ipxact::FieldModel,
                        crate::error::ErrorModel,
                    >(#[trigger] out_p[k]);
                assert(out[k] == out_p[k]);
            } else {
                let k = out_p.len() as int;
                assert(out[k] == part[0]);
            }
        }
    }
}

/// The register description for viewers keeps every field of a register,
/// space-filling or not, in its place.
pub proof fn lemma_every_field_is_shown(block: Seq<char>, r: RegisterModel)
    requires
        regvue::register_element(block, r) is Ok,
    ensures
        regvue::register_element(block, r)->Ok_0.fields is Some,
        regvue::register_element(block, r)->Ok_0.fields->0.len() == r.fields.len(),
        forall|i: int|
            0 <= i < r.fields.len() ==> regvue::field_entry(r.fields[i]) == Ok::<
                regvue::FieldModel,
                crate::error::ErrorModel,
            >(#[trigger] regvue::register_element(block, r)->Ok_0.fields->0[i]),
{
    let items = regvue::field_entries(r.fields);
    let shown = regvue::register_element(block, r)->Ok_0.fields->0;
    lemma_all_or_first(items);
    assert forall|i: int| 0 <= i < r.fields.len() implies regvue::field_entry(r.fields[i]) == Ok::<
        regvue::FieldModel,
        crate::error::ErrorModel,
    >(#[trigger] shown[i]) by {
        assert(items[i] == regvue::field_entry(r.fields[i]));
    }
}

} // verus!
