//! The item registration surface: a namespaced type id, a texture
//! reference, and an ordered collection of shared component values.

use crate::component::ComponentInstance;
use crate::fragment::{json_chars, pair_models, render_value, ComponentValue, FragmentModel};
use crate::vio::Identifier;
use vstd::prelude::*;

verus! {

/// The component-map entries of a sequence of shared component values,
/// one entry per component, in the components' order.
pub open spec fn component_entries(cs: Seq<std::sync::Arc<ComponentInstance>>) -> Seq<
    (Seq<char>, FragmentModel),
>
    decreases cs.len(),
{
    if cs.len() == 0 {
        Seq::empty()
    } else {
        component_entries(cs.drop_last()) + seq![cs.last().entry_model()]
    }
}

/// A game-content entity: a namespaced type id, a texture reference,
/// and the ordered component values it carries by shared reference.
/// Uniqueness of the type id across a pack is the external assembler's
/// concern, not this type's.
pub struct Item {
    pub type_id: Identifier,
    pub texture: String,
    pub components: Vec<std::sync::Arc<ComponentInstance>>,
}

impl Item {
    pub fn new(
        type_id: Identifier,
        texture: String,
        components: Vec<std::sync::Arc<ComponentInstance>>,
    ) -> (r: Self)
        ensures
            r.type_id == type_id,
            r.texture == texture,
            r.components == components,
    {
        Item { type_id, texture, components }
    }

    /// The item's component map: every component's single fragment
    /// entry, keyed by its descriptor's wire key, in component order.
    pub open spec fn component_map_model(&self) -> FragmentModel {
        FragmentModel::Object(component_entries(self.components@))
    }

    /// The component map as a structured value.
    pub fn component_map(&self) -> (r: ComponentValue)
        ensures
            r@ == self.component_map_model(),
    {
        let mut entries: Vec<(String, ComponentValue)> = Vec::new();
        let n = self.components.len();
        let mut i: usize = 0;
        while i < n
            invariant
                i <= n,
                n == self.components@.len(),
                pair_models(entries@) == component_entries(self.components@.take(i as int)),
            decreases n - i,
        {
            let ghost e0 = entries@;
            let e = self.components[i].entry();
            entries.push(e);
            proof {
                let t1 = self.components@.take(i + 1 as int);
                assert(t1.drop_last() =~= self.components@.take(i as int));
                assert(t1.last() == self.components@[i as int]);
                assert(entries@.drop_last() =~= e0);
                assert(pair_models(entries@) =~= component_entries(t1));
            }
            i = i + 1;
        }
        let r = ComponentValue::Object(entries);
        proof {
            assert(self.components@.take(n as int) =~= self.components@);
            assert(r@ =~= self.component_map_model());
        }
        r
    }

    /// The canonical text of the component map.
    pub fn render_component_map(&self) -> (r: String)
        ensures
            r@ == json_chars(self.component_map_model()),
    {
        let m = self.component_map();
        render_value(&m)
    }
}

} // verus!
