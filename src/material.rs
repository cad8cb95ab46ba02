//! Materials: a shading strategy bound to a shader program. Construction
//! resolves every attribute and uniform the strategy needs, or fails naming the
//! first one missing; rendering turns one draw of one object into the GPU
//! commands that set the program up, draw, and undo every binding it made.

use vstd::prelude::*;
use vstd::string::StringExecFns;
use crate::shader::{first_slot, Shader, ShaderAttribute, ShaderUniform, ShaderView};

verus! {

/// The built-in shading strategies.
#[derive(Clone, Copy, Debug, PartialEq, Eq, Structural)]
pub enum MaterialKind {
    /// Lit shading; the default material.
    Object,
    /// Surface normals shown as colours.
    Normals,
    /// Texture coordinates shown as colours.
    Uvs,
}

/// A per-vertex input that a mesh feeds to an attribute.
#[derive(Clone, Copy, Debug, PartialEq, Eq, Structural)]
pub enum Channel {
    Position,
    Normal,
    TexCoord,
}

/// A per-draw input uploaded to a uniform.
#[derive(Clone, Copy, Debug, PartialEq, Eq, Structural)]
pub enum UniformRole {
    /// The camera's view matrix for the pass.
    View,
    /// The object's rigid transform.
    Transform,
    /// The object's per-axis scale.
    Scale,
    /// The light's position.
    LightPosition,
    /// The object's colour.
    Color,
}

/// One step of the GPU work for a draw.
#[derive(Clone, Copy, Debug, PartialEq, Eq, Structural)]
pub enum GpuCommand {
    /// Activate the material's program.
    UseProgram,
    /// Enable the attribute at `slot`.
    EnableAttribute { slot: usize },
    /// Upload the input `role` of this pass into the uniform at `slot`.
    UploadUniform { role: UniformRole, slot: usize, pass: usize },
    /// Bind the mesh's `channel` buffer to the attribute at `slot`.
    BindAttribute { channel: Channel, slot: usize },
    /// Bind the mesh's index buffer.
    BindFaces,
    /// Draw `count` indices as triangles.
    DrawElements { count: usize },
    /// Unbind the mesh's buffers.
    Unbind,
    /// Disable the attribute at `slot`.
    DisableAttribute { slot: usize },
}

/// Why a material could not be built: a name it needs is absent from its program.
#[derive(Debug)]
pub enum BindingError {
    MissingAttribute { material: MaterialKind, name: String },
    MissingUniform { material: MaterialKind, name: String },
}

pub open spec fn channel_name(c: Channel) -> Seq<char> {
    match c {
        Channel::Position => "position"@,
        Channel::Normal => "normal"@,
        Channel::TexCoord => "tex_coord"@,
    }
}

pub open spec fn role_name(u: UniformRole) -> Seq<char> {
    match u {
        UniformRole::View => "view"@,
        UniformRole::Transform => "transform"@,
        UniformRole::Scale => "scale"@,
        UniformRole::LightPosition => "light_position"@,
        UniformRole::Color => "color"@,
    }
}

/// The attributes a kind of material binds, in order.
pub open spec fn channels_of(kind: MaterialKind) -> Seq<Channel> {
    match kind {
        MaterialKind::Object => seq![Channel::Position, Channel::Normal, Channel::TexCoord],
        MaterialKind::Normals => seq![Channel::Position, Channel::Normal],
        MaterialKind::Uvs => seq![Channel::Position, Channel::TexCoord],
    }
}

/// The uniforms a kind of material uploads, in order.
pub open spec fn roles_of(kind: MaterialKind) -> Seq<UniformRole> {
    match kind {
        MaterialKind::Object => seq![
            UniformRole::View,
            UniformRole::Transform,
            UniformRole::Scale,
            UniformRole::LightPosition,
            UniformRole::Color,
        ],
        _ => seq![UniformRole::View, UniformRole::Transform, UniformRole::Scale],
    }
}

/// The attribute names a kind of material needs from its program.
pub open spec fn attribute_names(kind: MaterialKind) -> Seq<Seq<char>> {
    channels_of(kind).map_values(|c: Channel| channel_name(c))
}

/// The uniform names a kind of material needs from its program.
pub open spec fn uniform_names(kind: MaterialKind) -> Seq<Seq<char>> {
    roles_of(kind).map_values(|u: UniformRole| role_name(u))
}

/// Every name of `required` is among `exposed`.
pub open spec fn all_exposed(required: Seq<Seq<char>>, exposed: Seq<Seq<char>>) -> bool {
    forall|i: int| 0 <= i < required.len() ==> exposed.contains(#[trigger] required[i])
}

/// `name` is the first name of `required` that `exposed` lacks.
pub open spec fn first_missing(
    required: Seq<Seq<char>>,
    exposed: Seq<Seq<char>>,
    name: Seq<char>,
) -> bool {
    exists|i: int|
        0 <= i < required.len() && required[i] == name && !exposed.contains(name) && forall|j: int|
            0 <= j < i ==> exposed.contains(#[trigger] required[j])
}

/// Enabling each attribute slot, in order.
pub open spec fn enables(a: Seq<usize>) -> Seq<GpuCommand> {
    Seq::new(a.len(), |i: int| GpuCommand::EnableAttribute { slot: a[i] })
}

/// Uploading each uniform role of the pass to its slot, in order.
pub open spec fn uploads(roles: Seq<UniformRole>, u: Seq<usize>, pass: usize) -> Seq<GpuCommand> {
    Seq::new(u.len(), |i: int| GpuCommand::UploadUniform { role: roles[i], slot: u[i], pass })
}

/// Binding each mesh channel to its attribute slot, in order.
pub open spec fn binds(channels: Seq<Channel>, a: Seq<usize>) -> Seq<GpuCommand> {
    Seq::new(a.len(), |i: int| GpuCommand::BindAttribute { channel: channels[i], slot: a[i] })
}

/// Disabling each attribute slot, in order.
pub open spec fn disables(a: Seq<usize>) -> Seq<GpuCommand> {
    Seq::new(a.len(), |i: int| GpuCommand::DisableAttribute { slot: a[i] })
}

/// Binding the faces, drawing `count` indices, and unbinding the mesh.
pub open spec fn draw(count: usize) -> Seq<GpuCommand> {
    seq![GpuCommand::BindFaces, GpuCommand::DrawElements { count }, GpuCommand::Unbind]
}

/// A material as the logic sees it: its kind, its program, and the slots its
/// bindings resolved to.
pub struct MaterialView {
    pub kind: MaterialKind,
    pub shader: ShaderView,
    pub attribute_slots: Seq<usize>,
    pub uniform_slots: Seq<usize>,
}

impl MaterialView {
    /// Every binding the kind needs is resolved to the first slot of its name.
    pub open spec fn wf(self) -> bool {
        &&& self.attribute_slots.len() == attribute_names(self.kind).len()
        &&& self.uniform_slots.len() == uniform_names(self.kind).len()
        &&& forall|i: int|
            0 <= i < self.attribute_slots.len() ==> first_slot(
                self.shader.attributes,
                #[trigger] attribute_names(self.kind)[i],
                self.attribute_slots[i] as int,
            )
        &&& forall|i: int|
            0 <= i < self.uniform_slots.len() ==> first_slot(
                self.shader.uniforms,
                #[trigger] uniform_names(self.kind)[i],
                self.uniform_slots[i] as int,
            )
    }

    /// The commands that draw `count` indices of a mesh in pass `pass`.
    pub open spec fn plan(self, pass: usize, count: usize) -> Seq<GpuCommand> {
        let a = self.attribute_slots;
        seq![GpuCommand::UseProgram] + enables(a) + uploads(roles_of(self.kind), self.uniform_slots, pass)
            + binds(channels_of(self.kind), a) + draw(count) + disables(a)
    }
}

impl Channel {
    /// The attribute name this channel is bound to.
    pub fn name(&self) -> (r: &'static str)
        ensures
            r@ == channel_name(*self),
    {
        match self {
            Channel::Position => "position",
            Channel::Normal => "normal",
            Channel::TexCoord => "tex_coord",
        }
    }
}

impl UniformRole {
    /// The uniform name this input is uploaded to.
    pub fn name(&self) -> (r: &'static str)
        ensures
            r@ == role_name(*self),
    {
        match self {
            UniformRole::View => "view",
            UniformRole::Transform => "transform",
            UniformRole::Scale => "scale",
            UniformRole::LightPosition => "light_position",
            UniformRole::Color => "color",
        }
    }
}

impl MaterialKind {
    /// The attributes this kind binds, in order.
    pub fn channels(&self) -> (r: Vec<Channel>)
        ensures
            r@ == channels_of(*self),
    {
        let mut r: Vec<Channel> = Vec::new();
        r.push(Channel::Position);
        match self {
            MaterialKind::Object => {
                r.push(Channel::Normal);
                r.push(Channel::TexCoord);
            },
            MaterialKind::Normals => {
                r.push(Channel::Normal);
            },
            MaterialKind::Uvs => {
                r.push(Channel::TexCoord);
            },
        }
        assert(r@ =~= channels_of(*self));
        r
    }

    /// The uniforms this kind uploads, in order.
    pub fn roles(&self) -> (r: Vec<UniformRole>)
        ensures
            r@ == roles_of(*self),
    {
        let mut r: Vec<UniformRole> = Vec::new();
        r.push(UniformRole::View);
        r.push(UniformRole::Transform);
        r.push(UniformRole::Scale);
        if let MaterialKind::Object = self {
            r.push(UniformRole::LightPosition);
            r.push(UniformRole::Color);
        }
        assert(r@ =~= roles_of(*self));
        r
    }
}

/// Rendering enables the attributes right after activating the program,
/// draws exactly once, with the mesh's index count, unbinds the mesh right
/// after the draw, and then disables every attribute it enabled, in the same
/// order: nothing it enabled stays enabled.
pub proof fn lemma_render_draws_once(m: MaterialView, pass: usize, count: usize)
    ensures
        ({
            let p = m.plan(pass, count);
            let a = m.attribute_slots;
            let d = 2 * a.len() + m.uniform_slots.len() + 2 as int;
            &&& p.len() == d + 2 + a.len()
            &&& p[0] == GpuCommand::UseProgram
            &&& p[d] == GpuCommand::DrawElements { count }
            &&& p[d + 1] == GpuCommand::Unbind
            &&& forall|j: int| 0 <= j < p.len() && j != d ==> !(#[trigger] p[j] is DrawElements)
            &&& forall|i: int|
                0 <= i < a.len() ==> p[1 + i] == GpuCommand::EnableAttribute { slot: #[trigger] a[i] }
                    && p[d + 2 + i] == GpuCommand::DisableAttribute { slot: a[i] }
            &&& forall|j: int| 0 <= j < p.len() && (#[trigger] p[j] is EnableAttribute) ==> 1 <= j <= a.len()
        }),
{
    let a = m.attribute_slots;
    let u = m.uniform_slots;
    let n = a.len() as int;
    let e = enables(a);
    let up = uploads(roles_of(m.kind), u, pass);
    let b = binds(channels_of(m.kind), a);
    let dr = draw(count);
    let ds = disables(a);
    let p = m.plan(pass, count);
    let d = 2 * n + u.len() + 2 as int;
    let head = seq![GpuCommand::UseProgram];
    assert(p == head + e + up + b + dr + ds);
    assert forall|j: int| 0 <= j < p.len() implies {
        &&& (j == 0 ==> p[j] == GpuCommand::UseProgram)
        &&& (1 <= j < 1 + n ==> p[j] == e[j - 1])
        &&& (1 + n <= j < 1 + n + u.len() ==> p[j] == up[j - 1 - n])
        &&& (1 + n + u.len() <= j < d - 1 ==> p[j] == b[j - 1 - n - u.len()])
        &&& (d - 1 <= j < d + 2 ==> p[j] == dr[j - d + 1])
        &&& (d + 2 <= j ==> p[j] == ds[j - d - 2])
    } by {
        assert((head + e + up + b + dr + ds)[j] == p[j]);
    }
    assert forall|j: int| 0 <= j < p.len() && j != d implies !(#[trigger] p[j] is DrawElements) by {
        if d - 1 <= j < d + 2 {
            assert(p[j] == dr[j - d + 1]);
        }
    }
    assert forall|i: int| 0 <= i < n implies p[1 + i] == GpuCommand::EnableAttribute {
        slot: #[trigger] a[i],
    } && p[d + 2 + i] == GpuCommand::DisableAttribute { slot: a[i] } by {
        assert(p[1 + i] == e[i]);
        assert(p[d + 2 + i] == ds[i]);
    }
    assert(p[d] == dr[1]);
    assert(p[d + 1] == dr[2]);
}

/// The program of a built-in material: it exposes exactly the names that
/// materials of `kind` need, in order.
pub fn builtin_shader(kind: MaterialKind) -> (r: Shader)
    ensures
        r@.attributes == attribute_names(kind),
        r@.uniforms == uniform_names(kind),
{
    let channels = kind.channels();
    let roles = kind.roles();
    let mut attributes: Vec<String> = Vec::new();
    let mut i: usize = 0;
    while i < channels.len()
        invariant
            channels@ == channels_of(kind),
            i <= channels.len(),
            attributes@.len() == i,
            forall|j: int| 0 <= j < i ==> (#[trigger] attributes@[j])@ == channel_name(channels@[j]),
        decreases channels.len() - i,
    {
        attributes.push(channels[i].name().to_owned());
        i = i + 1;
    }
    let mut uniforms: Vec<String> = Vec::new();
    let mut k: usize = 0;
    while k < roles.len()
        invariant
            roles@ == roles_of(kind),
            k <= roles.len(),
            uniforms@.len() == k,
            forall|j: int| 0 <= j < k ==> (#[trigger] uniforms@[j])@ == role_name(roles@[j]),
        decreases roles.len() - k,
    {
        uniforms.push(roles[k].name().to_owned());
        k = k + 1;
    }
    let r = Shader::new(attributes, uniforms);
    assert(r@.attributes =~= attribute_names(kind));
    assert(r@.uniforms =~= uniform_names(kind));
    r
}

/// The name a kind of material is known by.
pub open spec fn kind_name(kind: MaterialKind) -> Seq<char> {
    match kind {
        MaterialKind::Object => "object"@,
        MaterialKind::Normals => "normals"@,
        MaterialKind::Uvs => "uvs"@,
    }
}

/// The diagnostic for a failed binding: the material, what is missing, and its name.
pub open spec fn error_message(e: BindingError) -> Seq<char> {
    match e {
        BindingError::MissingAttribute { material, name } => kind_name(material)
            + " material: missing attribute `"@ + name@ + "`"@,
        BindingError::MissingUniform { material, name } => kind_name(material)
            + " material: missing uniform `"@ + name@ + "`"@,
    }
}

impl MaterialKind {
    /// The name this kind of material is known by.
    pub fn name(&self) -> (r: &'static str)
        ensures
            r@ == kind_name(*self),
    {
        match self {
            MaterialKind::Object => "object",
            MaterialKind::Normals => "normals",
            MaterialKind::Uvs => "uvs",
        }
    }
}

impl BindingError {
    /// A diagnostic that names the material being built and the missing name.
    pub fn message(&self) -> (r: String)
        ensures
            r@ == error_message(*self),
    {
        match self {
            BindingError::MissingAttribute { material, name } => {
                let mut r = material.name().to_owned();
                r.append(" material: missing attribute `");
                r.append(name.as_str());
                r.append("`");
                r
            },
            BindingError::MissingUniform { material, name } => {
                let mut r = material.name().to_owned();
                r.append(" material: missing uniform `");
                r.append(name.as_str());
                r.append("`");
                r
            },
        }
    }
}

/// `m` is the built-in material of `kind`, bound to the built-in program.
pub open spec fn is_builtin(m: Matrixerial, kind: MaterialKind) -> bool {
    &&& m@.kind == kind
    &&& m@.shader.attributes == attribute_names(kind)
    &&& m@.shader.uniforms == uniform_names(kind)
    &&& m@.wf()
}

/// A material: a shading strategy with its program and the bindings it
/// resolved once, at construction, for its whole lifetime.
#[derive(Debug)]
pub struct Matrixerial {
    kind: MaterialKind,
    shader: Shader,
    attributes: Vec<ShaderAttribute>,
    uniforms: Vec<ShaderUniform>,
}

impl View for Matrixerial {
    type V = MaterialView;

    closed spec fn view(&self) -> MaterialView {
        MaterialView {
            kind: self.kind,
            shader: self.shader@,
            attribute_slots: self.attributes@.map_values(|a: ShaderAttribute| a.slot),
            uniform_slots: self.uniforms@.map_values(|u: ShaderUniform| u.slot),
        }
    }
}

impl Matrixerial {
    #[verifier::type_invariant]
    closed spec fn bound(&self) -> bool {
        self@.wf()
    }

    /// Binds a material of `kind` to `shader`. Fails, naming the material and
    /// the name, on the first required attribute (then uniform) that the program
    /// does not expose.
    pub fn new(kind: MaterialKind, shader: Shader) -> (r: Result<Matrixerial, BindingError>)
        ensures
            r is Ok <==> all_exposed(attribute_names(kind), shader@.attributes) && all_exposed(
                uniform_names(kind),
                shader@.uniforms,
            ),
            r matches Ok(m) ==> m@.kind == kind && m@.shader == shader@ && m@.wf(),
            r matches Err(BindingError::MissingAttribute { .. }) <==> !all_exposed(
                attribute_names(kind),
                shader@.attributes,
            ),
            r matches Err(BindingError::MissingAttribute { material, name }) ==> material == kind
                && first_missing(attribute_names(kind), shader@.attributes, name@),
            r matches Err(BindingError::MissingUniform { .. }) <==> all_exposed(
                attribute_names(kind),
                shader@.attributes,
            ) && !all_exposed(uniform_names(kind), shader@.uniforms),
            r matches Err(BindingError::MissingUniform { material, name }) ==> material == kind
                && first_missing(uniform_names(kind), shader@.uniforms, name@),
    {
        let channels = kind.channels();
        let roles = kind.roles();
        let ghost anames = attribute_names(kind);
        let ghost unames = uniform_names(kind);
        let mut attributes: Vec<ShaderAttribute> = Vec::new();
        let mut i: usize = 0;
        while i < channels.len()
            invariant
                channels@ == channels_of(kind),
                anames == attribute_names(kind),
                i <= channels.len(),
                attributes@.len() == i,
                forall|j: int|
                    0 <= j < i ==> first_slot(
                        shader@.attributes,
                        #[trigger] anames[j],
                        attributes@[j].slot as int,
                    ),
            decreases channels.len() - i,
        {
            let name = channels[i].name();
            match shader.get_attrib(name) {
                Some(a) => {
                    attributes.push(a);
                },
                None => {
                    proof {
                        assert forall|j: int| 0 <= j < i implies shader@.attributes.contains(
                            #[trigger] anames[j],
                        ) by {
                            assert(shader@.attributes[attributes@[j].slot as int] == anames[j]);
                        }
                        assert(anames[i as int] == name@);
                    }
                    return Err(BindingError::MissingAttribute { material: kind, name: name.to_owned() });
                },
            }
            i = i + 1;
        }
        assert forall|j: int| 0 <= j < anames.len() implies shader@.attributes.contains(
            #[trigger] anames[j],
        ) by {
            assert(shader@.attributes[attributes@[j].slot as int] == anames[j]);
        }
        let mut uniforms: Vec<ShaderUniform> = Vec::new();
        let mut k: usize = 0;
        while k < roles.len()
            invariant
                roles@ == roles_of(kind),
                unames == uniform_names(kind),
                anames == attribute_names(kind),
                all_exposed(anames, shader@.attributes),
                k <= roles.len(),
                uniforms@.len() == k,
                forall|j: int|
                    0 <= j < k ==> first_slot(
                        shader@.uniforms,
                        #[trigger] unames[j],
                        uniforms@[j].slot as int,
                    ),
            decreases roles.len() - k,
        {
            let name = roles[k].name();
            match shader.get_uniform(name) {
                Some(u) => {
                    uniforms.push(u);
                },
                None => {
                    proof {
                        assert forall|j: int| 0 <= j < k implies shader@.uniforms.contains(
                            #[trigger] unames[j],
                        ) by {
                            assert(shader@.uniforms[uniforms@[j].slot as int] == unames[j]);
                        }
                        assert(unames[k as int] == name@);
                    }
                    return Err(BindingError::MissingUniform { material: kind, name: name.to_owned() });
                },
            }
            k = k + 1;
        }
        assert forall|j: int| 0 <= j < unames.len() implies shader@.uniforms.contains(
            #[trigger] unames[j],
        ) by {
            assert(shader@.uniforms[uniforms@[j].slot as int] == unames[j]);
        }
        let m = Matrixerial { kind, shader, attributes, uniforms };
        proof {
            assert(m@.attribute_slots.len() == attribute_names(kind).len());
            assert(m@.uniform_slots.len() == uniform_names(kind).len());
        }
        Ok(m)
    }

    /// The built-in material of `kind`, bound to its own program.
    pub fn builtin(kind: MaterialKind) -> (r: Matrixerial)
        ensures
            is_builtin(r, kind),
    {
        let shader = builtin_shader(kind);
        let ghost sv = shader@;
        assert forall|i: int| 0 <= i < attribute_names(kind).len() implies sv.attributes.contains(
            #[trigger] attribute_names(kind)[i],
        ) by {
            assert(sv.attributes[i] == attribute_names(kind)[i]);
        }
        assert forall|i: int| 0 <= i < uniform_names(kind).len() implies sv.uniforms.contains(
            #[trigger] uniform_names(kind)[i],
        ) by {
            assert(sv.uniforms[i] == uniform_names(kind)[i]);
        }
        let r = Matrixerial::new(kind, shader);
        r.unwrap()
    }

    /// The kind of this material.
    pub fn kind(&self) -> (r: MaterialKind)
        ensures
            r == self@.kind,
    {
        self.kind
    }

    /// The program this material is bound to.
    pub fn shader(&self) -> (r: &Shader)
        ensures
            r@ == self@.shader,
    {
        &self.shader
    }

    /// The GPU commands that draw `count` indices of a mesh with this material
    /// in pass `pass`: activate the program, enable and bind every attribute,
    /// upload every uniform, draw once, then unbind the mesh and disable every
    /// attribute again.
    pub fn render(&self, pass: usize, count: usize) -> (r: Vec<GpuCommand>)
        ensures
            r@ == self@.plan(pass, count),
    {
        proof {
            use_type_invariant(self);
        }
        let channels = self.kind.channels();
        let roles = self.kind.roles();
        let ghost a = self@.attribute_slots;
        let ghost u = self@.uniform_slots;
        let n = self.attributes.len();
        let mut out: Vec<GpuCommand> = Vec::new();
        out.push(GpuCommand::UseProgram);
        let ghost base = out@;
        let mut i: usize = 0;
        while i < n
            invariant
                n == a.len(),
                a == self@.attribute_slots,
                i <= n,
                out@ =~= base + enables(a.take(i as int)),
            decreases n - i,
        {
            out.push(GpuCommand::EnableAttribute { slot: self.attributes[i].slot });
            assert(enables(a.take(i + 1)) =~= enables(a.take(i as int)).push(
                GpuCommand::EnableAttribute { slot: a[i as int] },
            ));
            i = i + 1;
        }
        assert(a.take(n as int) =~= a);
        let ghost base = out@;
        let mut k: usize = 0;
        while k < self.uniforms.len()
            invariant
                u == self@.uniform_slots,
                roles@ == roles_of(self@.kind),
                u.len() == roles@.len(),
                k <= u.len(),
                out@ =~= base + uploads(roles@, u.take(k as int), pass),
            decreases u.len() - k,
        {
            out.push(GpuCommand::UploadUniform { role: roles[k], slot: self.uniforms[k].slot, pass });
            assert(uploads(roles@, u.take(k + 1), pass) =~= uploads(roles@, u.take(k as int), pass).push(
                GpuCommand::UploadUniform { role: roles@[k as int], slot: u[k as int], pass },
            ));
            k = k + 1;
        }
        assert(u.take(u.len() as int) =~= u);
        let ghost base = out@;
        let mut i: usize = 0;
        while i < n
            invariant
                n == a.len(),
                a == self@.attribute_slots,
                channels@ == channels_of(self@.kind),
                a.len() == channels@.len(),
                i <= n,
                out@ =~= base + binds(channels@, a.take(i as int)),
            decreases n - i,
        {
            out.push(GpuCommand::BindAttribute { channel: channels[i], slot: self.attributes[i].slot });
            assert(binds(channels@, a.take(i + 1)) =~= binds(channels@, a.take(i as int)).push(
                GpuCommand::BindAttribute { channel: channels@[i as int], slot: a[i as int] },
            ));
            i = i + 1;
        }
        out.push(GpuCommand::BindFaces);
        out.push(GpuCommand::DrawElements { count });
        out.push(GpuCommand::Unbind);
        let ghost base = out@;
        let mut i: usize = 0;
        while i < n
            invariant
                n == a.len(),
                a == self@.attribute_slots,
                i <= n,
                out@ =~= base + disables(a.take(i as int)),
            decreases n - i,
        {
            out.push(GpuCommand::DisableAttribute { slot: self.attributes[i].slot });
            assert(disables(a.take(i + 1)) =~= disables(a.take(i as int)).push(
                GpuCommand::DisableAttribute { slot: a[i as int] },
            ));
            i = i + 1;
        }
        out
    }
}

} // verus!
