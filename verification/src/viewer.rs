//! Presentation-side vocabulary: the editor's mode switch and the GLSL
//! program sources a renderer backend compiles for the overlay UI.

use vstd::prelude::*;

verus! {

/// What a mouse click edits: picking existing entities, or creating new ones.
pub enum EditMode {
    Select,
    Create,
}

/// The shader dialect a renderer backend asks for.
#[derive(Copy, Clone, Debug, PartialEq, Eq, Structural)]
pub enum Shaders {
    GlSl400,
    GlSl130,
    GlSl110,
    GlSlEs300,
    GlSlEs100,
}

/// The vertex and fragment program sources per shader dialect.
pub open spec fn program_code_s(s: Shaders) -> (&'static str, &'static str) {
    match s {
        Shaders::GlSl400 => (
            "#version 400\nuniform mat4 matrix;\nin vec2 pos;\nin vec2 uv;\nin vec4 col;\nout vec2 f_uv;\nout vec4 f_col;\nvoid main() {\n  f_uv = uv;\n  f_col = col;\n  gl_Position = matrix * vec4(pos.xy, 0, 1);\n}\n",
            "#version 400\nuniform sampler2D tex;\nin vec2 f_uv;\nin vec4 f_col;\nout vec4 out_col;\nvoid main() {\n  out_col = f_col * texture(tex, f_uv.st);\n}\n",
        ),
        Shaders::GlSl130 => (
            "#version 130\nuniform mat4 matrix;\nin vec2 pos;\nin vec2 uv;\nin vec4 col;\nout vec2 f_uv;\nout vec4 f_col;\nvoid main() {\n  f_uv = uv;\n  f_col = col;\n  gl_Position = matrix * vec4(pos.xy, 0, 1);\n}\n",
            "#version 130\nuniform sampler2D tex;\nin vec2 f_uv;\nin vec4 f_col;\nout vec4 out_col;\nvoid main() {\n  out_col = f_col * texture(tex, f_uv.st);\n}\n",
        ),
        Shaders::GlSl110 => (
            "#version 110\nuniform mat4 matrix;\nattribute vec2 pos;\nattribute vec2 uv;\nattribute vec4 col;\nvarying vec2 f_uv;\nvarying vec4 f_col;\nvoid main() {\n  f_uv = uv;\n  f_col = col;\n  gl_Position = matrix * vec4(pos.xy, 0, 1);\n}\n",
            "#version 110\nuniform sampler2D tex;\nvarying vec2 f_uv;\nvarying vec4 f_col;\nvoid main() {\n  gl_FragColor = f_col * texture2D(tex, f_uv.st);\n}\n",
        ),
        Shaders::GlSlEs300 => (
            "#version 300 es\nprecision mediump float;\nuniform mat4 matrix;\nin vec2 pos;\nin vec2 uv;\nin vec4 col;\nout vec2 f_uv;\nout vec4 f_col;\nvoid main() {\n  f_uv = uv;\n  f_col = col;\n  gl_Position = matrix * vec4(pos.xy, 0, 1);\n}\n",
            "#version 300 es\nprecision mediump float;\nuniform sampler2D tex;\nin vec2 f_uv;\nin vec4 f_col;\nout vec4 out_col;\nvoid main() {\n  out_col = f_col * texture(tex, f_uv.st);\n}\n",
        ),
        Shaders::GlSlEs100 => (
            "#version 100\nprecision mediump float;\nuniform mat4 matrix;\nattribute vec2 pos;\nattribute vec2 uv;\nattribute vec4 col;\nvarying vec2 f_uv;\nvarying vec4 f_col;\nvoid main() {\n  f_uv = uv;\n  f_col = col;\n  gl_Position = matrix * vec4(pos.xy, 0, 1);\n}\n",
            "#version 100\nprecision mediump float;\nuniform sampler2D tex;\nvarying vec2 f_uv;\nvarying vec4 f_col;\nvoid main() {\n  gl_FragColor = f_col * texture2D(tex, f_uv.st);\n}\n",
        ),
    }
}

impl Shaders {
    /// The vertex and fragment program sources for this dialect: the
    /// fixed, non-empty pair that `program_code_s` names.
    pub fn get_program_code(self) -> (r: (&'static str, &'static str))
        ensures
            r == program_code_s(self),
            r.0@.len() > 0,
            r.1@.len() > 0,
    {
        proof {
            reveal_strlit("#version 400\nuniform mat4 matrix;\nin vec2 pos;\nin vec2 uv;\nin vec4 col;\nout vec2 f_uv;\nout vec4 f_col;\nvoid main() {\n  f_uv = uv;\n  f_col = col;\n  gl_Position = matrix * vec4(pos.xy, 0, 1);\n}\n");
            reveal_strlit("#version 400\nuniform sampler2D tex;\nin vec2 f_uv;\nin vec4 f_col;\nout vec4 out_col;\nvoid main() {\n  out_col = f_col * texture(tex, f_uv.st);\n}\n");
            reveal_strlit("#version 130\nuniform mat4 matrix;\nin vec2 pos;\nin vec2 uv;\nin vec4 col;\nout vec2 f_uv;\nout vec4 f_col;\nvoid main() {\n  f_uv = uv;\n  f_col = col;\n  gl_Position = matrix * vec4(pos.xy, 0, 1);\n}\n");
            reveal_strlit("#version 130\nuniform sampler2D tex;\nin vec2 f_uv;\nin vec4 f_col;\nout vec4 out_col;\nvoid main() {\n  out_col = f_col * texture(tex, f_uv.st);\n}\n");
            reveal_strlit("#version 110\nuniform mat4 matrix;\nattribute vec2 pos;\nattribute vec2 uv;\nattribute vec4 col;\nvarying vec2 f_uv;\nvarying vec4 f_col;\nvoid main() {\n  f_uv = uv;\n  f_col = col;\n  gl_Position = matrix * vec4(pos.xy, 0, 1);\n}\n");
            reveal_strlit("#version 110\nuniform sampler2D tex;\nvarying vec2 f_uv;\nvarying vec4 f_col;\nvoid main() {\n  gl_FragColor = f_col * texture2D(tex, f_uv.st);\n}\n");
            reveal_strlit("#version 300 es\nprecision mediump float;\nuniform mat4 matrix;\nin vec2 pos;\nin vec2 uv;\nin vec4 col;\nout vec2 f_uv;\nout vec4 f_col;\nvoid main() {\n  f_uv = uv;\n  f_col = col;\n  gl_Position = matrix * vec4(pos.xy, 0, 1);\n}\n");
            reveal_strlit("#version 300 es\nprecision mediump float;\nuniform sampler2D tex;\nin vec2 f_uv;\nin vec4 f_col;\nout vec4 out_col;\nvoid main() {\n  out_col = f_col * texture(tex, f_uv.st);\n}\n");
            reveal_strlit("#version 100\nprecision mediump float;\nuniform mat4 matrix;\nattribute vec2 pos;\nattribute vec2 uv;\nattribute vec4 col;\nvarying vec2 f_uv;\nvarying vec4 f_col;\nvoid main() {\n  f_uv = uv;\n  f_col = col;\n  gl_Position = matrix * vec4(pos.xy, 0, 1);\n}\n");
            reveal_strlit("#version 100\nprecision mediump float;\nuniform sampler2D tex;\nvarying vec2 f_uv;\nvarying vec4 f_col;\nvoid main() {\n  gl_FragColor = f_col * texture2D(tex, f_uv.st);\n}\n");
        }
        match self {
            Shaders::GlSl400 => (
                "#version 400\nuniform mat4 matrix;\nin vec2 pos;\nin vec2 uv;\nin vec4 col;\nout vec2 f_uv;\nout vec4 f_col;\nvoid main() {\n  f_uv = uv;\n  f_col = col;\n  gl_Position = matrix * vec4(pos.xy, 0, 1);\n}\n",
                "#version 400\nuniform sampler2D tex;\nin vec2 f_uv;\nin vec4 f_col;\nout vec4 out_col;\nvoid main() {\n  out_col = f_col * texture(tex, f_uv.st);\n}\n",
            ),
            Shaders::GlSl130 => (
                "#version 130\nuniform mat4 matrix;\nin vec2 pos;\nin vec2 uv;\nin vec4 col;\nout vec2 f_uv;\nout vec4 f_col;\nvoid main() {\n  f_uv = uv;\n  f_col = col;\n  gl_Position = matrix * vec4(pos.xy, 0, 1);\n}\n",
                "#version 130\nuniform sampler2D tex;\nin vec2 f_uv;\nin vec4 f_col;\nout vec4 out_col;\nvoid main() {\n  out_col = f_col * texture(tex, f_uv.st);\n}\n",
            ),
            Shaders::GlSl110 => (
                "#version 110\nuniform mat4 matrix;\nattribute vec2 pos;\nattribute vec2 uv;\nattribute vec4 col;\nvarying vec2 f_uv;\nvarying vec4 f_col;\nvoid main() {\n  f_uv = uv;\n  f_col = col;\n  gl_Position = matrix * vec4(pos.xy, 0, 1);\n}\n",
                "#version 110\nuniform sampler2D tex;\nvarying vec2 f_uv;\nvarying vec4 f_col;\nvoid main() {\n  gl_FragColor = f_col * texture2D(tex, f_uv.st);\n}\n",
            ),
            Shaders::GlSlEs300 => (
                "#version 300 es\nprecision mediump float;\nuniform mat4 matrix;\nin vec2 pos;\nin vec2 uv;\nin vec4 col;\nout vec2 f_uv;\nout vec4 f_col;\nvoid main() {\n  f_uv = uv;\n  f_col = col;\n  gl_Position = matrix * vec4(pos.xy, 0, 1);\n}\n",
                "#version 300 es\nprecision mediump float;\nuniform sampler2D tex;\nin vec2 f_uv;\nin vec4 f_col;\nout vec4 out_col;\nvoid main() {\n  out_col = f_col * texture(tex, f_uv.st);\n}\n",
            ),
            Shaders::GlSlEs100 => (
                "#version 100\nprecision mediump float;\nuniform mat4 matrix;\nattribute vec2 pos;\nattribute vec2 uv;\nattribute vec4 col;\nvarying vec2 f_uv;\nvarying vec4 f_col;\nvoid main() {\n  f_uv = uv;\n  f_col = col;\n  gl_Position = matrix * vec4(pos.xy, 0, 1);\n}\n",
                "#version 100\nprecision mediump float;\nuniform sampler2D tex;\nvarying vec2 f_uv;\nvarying vec4 f_col;\nvoid main() {\n  gl_FragColor = f_col * texture2D(tex, f_uv.st);\n}\n",
            ),
        }
    }
}

} // verus!
