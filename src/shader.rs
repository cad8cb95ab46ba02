//! The interface that a compiled shader program exposes: the names of its
//! attributes and uniforms, and name lookups that resolve them to slots.

use vstd::prelude::*;

verus! {

/// A resolved attribute binding: the slot of the attribute in its program.
#[derive(Clone, Copy, Debug, PartialEq, Eq, Structural)]
pub struct ShaderAttribute {
    pub slot: usize,
}

/// A resolved uniform binding: the slot of the uniform in its program.
#[derive(Clone, Copy, Debug, PartialEq, Eq, Structural)]
pub struct ShaderUniform {
    pub slot: usize,
}

/// A compiled shader program, as the names of the attributes and uniforms it
/// exposes, in slot order.
#[derive(Debug)]
pub struct Shader {
    pub attributes: Vec<String>,
    pub uniforms: Vec<String>,
}

/// What a shader program exposes, as sequences of names.
pub struct ShaderView {
    pub attributes: Seq<Seq<char>>,
    pub uniforms: Seq<Seq<char>>,
}

/// The names of a sequence of strings.
pub open spec fn names_of(v: Seq<String>) -> Seq<Seq<char>> {
    v.map_values(|s: String| s@)
}

/// `slot` is the first position of `name` in `names`.
pub open spec fn first_slot(names: Seq<Seq<char>>, name: Seq<char>, slot: int) -> bool {
    &&& 0 <= slot < names.len()
    &&& names[slot] == name
    &&& forall|j: int| 0 <= j < slot ==> names[j] != name
}

impl View for Shader {
    type V = ShaderView;

    open spec fn view(&self) -> ShaderView {
        ShaderView { attributes: names_of(self.attributes@), uniforms: names_of(self.uniforms@) }
    }
}

/// The first position of `name` among `names`, if it is there.
fn find_name(names: &Vec<String>, name: &str) -> (r: Option<usize>)
    ensures
        r is None <==> !names_of(names@).contains(name@),
        r matches Some(slot) ==> first_slot(names_of(names@), name@, slot as int),
{
    let key = name.to_owned();
    let mut i: usize = 0;
    while i < names.len()
        invariant
            i <= names.len(),
            key@ == name@,
            forall|j: int| 0 <= j < i ==> names_of(names@)[j] != name@,
        decreases names.len() - i,
    {
        if names[i] == key {
            assert(names_of(names@)[i as int] == name@);
            return Some(i);
        }
        i = i + 1;
    }
    proof {
        if names_of(names@).contains(name@) {
            let k = choose|k: int| 0 <= k < names_of(names@).len() && names_of(names@)[k] == name@;
            assert(names_of(names@)[k] == name@);
        }
    }
    None
}

impl Shader {
    /// A program that exposes the given attribute and uniform names, in slot order.
    pub fn new(attributes: Vec<String>, uniforms: Vec<String>) -> (r: Shader)
        ensures
            r.attributes@ == attributes@,
            r.uniforms@ == uniforms@,
    {
        Shader { attributes, uniforms }
    }

    /// Resolves the attribute called `name`: `None` if the program has none.
    pub fn get_attrib(&self, name: &str) -> (r: Option<ShaderAttribute>)
        ensures
            r is None <==> !self@.attributes.contains(name@),
            r matches Some(a) ==> first_slot(self@.attributes, name@, a.slot as int),
    {
        match find_name(&self.attributes, name) {
            Some(slot) => Some(ShaderAttribute { slot }),
            None => None,
        }
    }

    /// Resolves the uniform called `name`: `None` if the program has none.
    pub fn get_uniform(&self, name: &str) -> (r: Option<ShaderUniform>)
        ensures
            r is None <==> !self@.uniforms.contains(name@),
            r matches Some(u) ==> first_slot(self@.uniforms, name@, u.slot as int),
    {
        match find_name(&self.uniforms, name) {
            Some(slot) => Some(ShaderUniform { slot }),
            None => None,
        }
    }
}

} // verus!
