//! Surfaces, contexts and the handles by which pictures reach the compositor.

use vstd::prelude::*;

use crate::decoder::same_text;

verus! {

// ---------------------------------------------------------------------------
// Displays
// ---------------------------------------------------------------------------

/// The flag of a display that other programs may draw on.
pub const DISPLAY_FLAG_PRESENTATION: i32 = 8;

/// A display that pictures can be presented on.
pub open spec fn presentable(flags: i32, name: Seq<char>) -> bool {
    &&& flags & DISPLAY_FLAG_PRESENTATION != 0
    &&& name == "PxrScreenShot"@ || name == "PxrScreenRecord"@ || name == "PxrScreenCast"@
}

/// Whether pictures can be presented on a display.
pub fn is_presentation_display(flags: i32, name: &str) -> (result: bool)
    ensures
        result == presentable(flags, name@),
{
    flags & DISPLAY_FLAG_PRESENTATION != 0 && (same_text(name, "PxrScreenShot") || same_text(
        name,
        "PxrScreenRecord",
    ) || same_text(name, "PxrScreenCast"))
}

/// A display as the system lists it.
#[derive(Clone, Debug, PartialEq, Eq)]
pub struct DisplayCandidate {
    pub id: i32,
    pub name: String,
    pub flags: i32,
}

/// A display of a list is suited.
pub open spec fn suited_at(displays: Seq<DisplayCandidate>, i: int) -> bool {
    presentable(displays[i].flags, displays[i].name@)
}

/// The chosen display is the first that is suited.
pub open spec fn is_first_suited(displays: Seq<DisplayCandidate>, chosen: Option<usize>) -> bool {
    match chosen {
        Some(index) => index < displays.len() && suited_at(displays, index as int) && forall|i: int|
            0 <= i < index ==> !#[trigger] suited_at(displays, i),
        None => forall|i: int| 0 <= i < displays.len() ==> !#[trigger] suited_at(displays, i),
    }
}

/// Chooses the display to present on: the first that is suited.
pub fn choose_presentation_display(displays: &Vec<DisplayCandidate>) -> (chosen: Option<usize>)
    ensures
        is_first_suited(displays@, chosen),
        match chosen {
            Some(index) => {
                &&& index < displays@.len()
                &&& presentable(displays@[index as int].flags, displays@[index as int].name@)
                &&& forall|i: int|
                    0 <= i < index ==> !presentable(
                        (#[trigger] displays@[i]).flags,
                        displays@[i].name@,
                    )
            },
            None => forall|i: int|
                0 <= i < displays@.len() ==> !presentable(
                    (#[trigger] displays@[i]).flags,
                    displays@[i].name@,
                ),
        },
{
    let mut index: usize = 0;
    while index < displays.len()
        invariant
            index <= displays@.len(),
            forall|i: int|
                0 <= i < index ==> !presentable(
                    (#[trigger] displays@[i]).flags,
                    displays@[i].name@,
                ),
        decreases displays@.len() - index,
    {
        if is_presentation_display(displays[index].flags, displays[index].name.as_str()) {
            return Some(index);
        }
        index = index + 1;
    }
    None
}

// ---------------------------------------------------------------------------
// Contexts
// ---------------------------------------------------------------------------

pub const EGL_TRUE: i32 = 1;

pub const EGL_NONE: i32 = 0x3038;

pub const EGL_RED_SIZE: i32 = 0x3024;

pub const EGL_GREEN_SIZE: i32 = 0x3023;

pub const EGL_BLUE_SIZE: i32 = 0x3022;

pub const EGL_ALPHA_SIZE: i32 = 0x3021;

pub const EGL_RENDERABLE_TYPE: i32 = 0x3040;

pub const EGL_SURFACE_TYPE: i32 = 0x3033;

pub const EGL_CONTEXT_CLIENT_VERSION: i32 = 0x3098;

pub const EGL_WIDTH: i32 = 0x3057;

pub const EGL_HEIGHT: i32 = 0x3056;

pub const EGL_PROTECTED_CONTENT_EXT: i32 = 0x32c0;

/// The attributes by which a configuration is chosen: eight bits for each channel.
pub fn egl_config_attributes(surface_type: i32, renderable_type: i32) -> (attributes: Vec<i32>)
    ensures
        attributes@ == seq![
            EGL_RENDERABLE_TYPE,
            renderable_type,
            EGL_SURFACE_TYPE,
            surface_type,
            EGL_RED_SIZE,
            8i32,
            EGL_GREEN_SIZE,
            8i32,
            EGL_BLUE_SIZE,
            8i32,
            EGL_ALPHA_SIZE,
            8i32,
            EGL_NONE,
        ],
{
    let mut attributes: Vec<i32> = Vec::new();
    attributes.push(EGL_RENDERABLE_TYPE);
    attributes.push(renderable_type);
    attributes.push(EGL_SURFACE_TYPE);
    attributes.push(surface_type);
    attributes.push(EGL_RED_SIZE);
    attributes.push(8);
    attributes.push(EGL_GREEN_SIZE);
    attributes.push(8);
    attributes.push(EGL_BLUE_SIZE);
    attributes.push(8);
    attributes.push(EGL_ALPHA_SIZE);
    attributes.push(8);
    attributes.push(EGL_NONE);
    attributes
}

/// What ends a list of attributes: the request for protected content, where there is one, and the
/// end mark.
pub open spec fn attributes_end(protected: bool) -> Seq<i32> {
    if protected {
        seq![EGL_PROTECTED_CONTENT_EXT, EGL_TRUE, EGL_NONE]
    } else {
        seq![EGL_NONE]
    }
}

fn push_end(attributes: &mut Vec<i32>, protected: bool)
    ensures
        final(attributes)@ == old(attributes)@ + attributes_end(protected),
{
    let ghost before = attributes@;
    if protected {
        attributes.push(EGL_PROTECTED_CONTENT_EXT);
        attributes.push(EGL_TRUE);
    }
    attributes.push(EGL_NONE);
    assert(attributes@ =~= before + attributes_end(protected));
}

/// The attributes of a context.
pub fn egl_context_attributes(version: i32, protected: bool) -> (attributes: Vec<i32>)
    ensures
        attributes@ == seq![EGL_CONTEXT_CLIENT_VERSION, version] + attributes_end(protected),
{
    let mut attributes: Vec<i32> = Vec::new();
    attributes.push(EGL_CONTEXT_CLIENT_VERSION);
    attributes.push(version);
    push_end(&mut attributes, protected);
    assert(attributes@ =~= seq![EGL_CONTEXT_CLIENT_VERSION, version] + attributes_end(protected));
    attributes
}

/// The attributes of a surface that nobody sees.
pub fn egl_pbuffer_attributes(protected: bool) -> (attributes: Vec<i32>)
    ensures
        attributes@ == seq![EGL_WIDTH, 2i32, EGL_HEIGHT, 2i32] + attributes_end(protected),
{
    let mut attributes: Vec<i32> = Vec::new();
    attributes.push(EGL_WIDTH);
    attributes.push(2);
    attributes.push(EGL_HEIGHT);
    attributes.push(2);
    push_end(&mut attributes, protected);
    assert(attributes@ =~= seq![EGL_WIDTH, 2i32, EGL_HEIGHT, 2i32] + attributes_end(protected));
    attributes
}

/// The attributes of the surface of a window.
pub fn egl_window_attributes(protected: bool) -> (attributes: Vec<i32>)
    ensures
        attributes@ == attributes_end(protected),
{
    let mut attributes: Vec<i32> = Vec::new();
    push_end(&mut attributes, protected);
    assert(attributes@ =~= attributes_end(protected));
    attributes
}

/// An attempt to create a context.
#[derive(Clone, Copy, Debug, PartialEq, Eq, Structural)]
pub struct ContextAttempt {
    pub protected: bool,
    pub version: i32,
}

/// The attempts to create a context, in their order: every version for the first choice of
/// protection, then every version for the next.
pub open spec fn attempts_of(protections: Seq<bool>, versions: Seq<i32>) -> Seq<ContextAttempt>
    decreases protections.len(),
{
    if protections.len() == 0 {
        Seq::empty()
    } else {
        attempts_of(protections.drop_last(), versions) + versions.map_values(
            |version: i32| ContextAttempt { protected: protections.last(), version },
        )
    }
}

/// Lists the attempts to create a context.
pub fn context_attempts(protections: &[bool], versions: &[i32]) -> (attempts: Vec<ContextAttempt>)
    ensures
        attempts@ == attempts_of(protections@, versions@),
{
    let mut attempts: Vec<ContextAttempt> = Vec::new();
    let mut choice: usize = 0;
    while choice < protections.len()
        invariant
            choice <= protections@.len(),
            attempts@ == attempts_of(protections@.take(choice as int), versions@),
        decreases protections@.len() - choice,
    {
        let protected: bool = protections[choice];
        let ghost before = attempts@;
        let ghost row = versions@.map_values(
            |version: i32| ContextAttempt { protected, version },
        );
        let mut index: usize = 0;
        while index < versions.len()
            invariant
                index <= versions@.len(),
                row == versions@.map_values(|version: i32| ContextAttempt { protected, version }),
                attempts@ =~= before + row.take(index as int),
            decreases versions@.len() - index,
        {
            attempts.push(ContextAttempt { protected, version: versions[index] });
            index = index + 1;
        }
        proof {
            let known = protections@.take(choice + 1);
            assert(known.drop_last() =~= protections@.take(choice as int));
            assert(known.last() == protected);
            assert(row.take(versions@.len() as int) =~= row);
            assert(versions@.map_values(
                |version: i32| ContextAttempt { protected: known.last(), version },
            ) =~= row);
        }
        choice = choice + 1;
    }
    assert(protections@.take(protections@.len() as int) =~= protections@);
    attempts
}

// ---------------------------------------------------------------------------
// Handles
// ---------------------------------------------------------------------------

/// What the compositor is told of a picture.
#[derive(Clone, Copy, Debug, PartialEq, Eq, Structural)]
pub enum SubmittedImageHandleKind {
    TextureId,
    EglImage,
    EglClientBuffer,
    HardwareBufferPtr,
}

/// Why a picture has no handle.
#[derive(Clone, Copy, Debug, PartialEq, Eq, Structural)]
pub enum HandleError {
    /// The picture was not made with such a handle.
    Missing(SubmittedImageHandleKind),
    /// The handle is null.
    Null(SubmittedImageHandleKind),
}

impl HandleError {
    /// The error in words.
    pub open spec fn message(self) -> Seq<char> {
        match self {
            HandleError::Missing(kind) => match kind {
                SubmittedImageHandleKind::TextureId => "missing texture"@,
                SubmittedImageHandleKind::EglImage => "missing EGLImage for kTypeImage submission"@,
                SubmittedImageHandleKind::EglClientBuffer =>
                    "missing EGLClientBuffer for kTypeImage submission"@,
                SubmittedImageHandleKind::HardwareBufferPtr =>
                    "missing AHardwareBuffer for kTypeImage submission"@,
            },
            HandleError::Null(kind) => match kind {
                SubmittedImageHandleKind::TextureId => "texture handle is null"@,
                SubmittedImageHandleKind::EglImage => "EGLImageKHR handle is null"@,
                SubmittedImageHandleKind::EglClientBuffer => "EGLClientBuffer handle is null"@,
                SubmittedImageHandleKind::HardwareBufferPtr => "AHardwareBuffer handle is null"@,
            },
        }
    }

    /// Writes the error in words.
    pub fn text(&self) -> (text: &'static str)
        ensures
            text@ == self.message(),
    {
        match self {
            HandleError::Missing(kind) => match kind {
                SubmittedImageHandleKind::TextureId => "missing texture",
                SubmittedImageHandleKind::EglImage => "missing EGLImage for kTypeImage submission",
                SubmittedImageHandleKind::EglClientBuffer =>
                    "missing EGLClientBuffer for kTypeImage submission",
                SubmittedImageHandleKind::HardwareBufferPtr =>
                    "missing AHardwareBuffer for kTypeImage submission",
            },
            HandleError::Null(kind) => match kind {
                SubmittedImageHandleKind::TextureId => "texture handle is null",
                SubmittedImageHandleKind::EglImage => "EGLImageKHR handle is null",
                SubmittedImageHandleKind::EglClientBuffer => "EGLClientBuffer handle is null",
                SubmittedImageHandleKind::HardwareBufferPtr => "AHardwareBuffer handle is null",
            },
        }
    }
}

/// A number without a sign whose bits are read as one with a sign.
pub open spec fn signed_bits(bits: int) -> int {
    if bits < 0x8000_0000 {
        bits
    } else {
        bits - 0x1_0000_0000
    }
}

/// The low 32 bits of a handle. A handle of zero is none.
pub fn truncate_native_handle(raw: u64) -> (handle: Option<i32>)
    ensures
        handle is Some == (raw != 0),
        handle matches Some(low) ==> low == signed_bits(raw as int % 0x1_0000_0000),
{
    if raw == 0 {
        return None;
    }
    Some(to_signed((raw % 0x1_0000_0000) as u32))
}

fn to_signed(bits: u32) -> (number: i32)
    ensures
        number == signed_bits(bits as int),
{
    if bits < 0x8000_0000 {
        bits as i32
    } else {
        (bits as i64 - 0x1_0000_0000) as i32
    }
}

/// The handles that a picture was made with.
#[derive(Clone, Copy, Debug, PartialEq, Eq, Structural)]
pub struct ImageHandles {
    pub texture: u32,
    pub egl_image: Option<u64>,
    pub egl_client_buffer: Option<u64>,
    pub hardware_buffer: Option<u64>,
}

impl ImageHandles {
    /// The handle of a kind, where the picture has one.
    pub open spec fn of(self, kind: SubmittedImageHandleKind) -> Option<u64> {
        match kind {
            SubmittedImageHandleKind::TextureId => Some(self.texture as u64),
            SubmittedImageHandleKind::EglImage => self.egl_image,
            SubmittedImageHandleKind::EglClientBuffer => self.egl_client_buffer,
            SubmittedImageHandleKind::HardwareBufferPtr => self.hardware_buffer,
        }
    }
}

/// The number that the compositor is told of a picture. The name of a texture may be zero.
pub fn submitted_image_handle(kind: SubmittedImageHandleKind, handles: &ImageHandles) -> (result:
    Result<i32, HandleError>)
    ensures
        match handles.of(kind) {
            None => result == Err::<i32, HandleError>(HandleError::Missing(kind)),
            Some(raw) => if raw == 0 && kind != SubmittedImageHandleKind::TextureId {
                result == Err::<i32, HandleError>(HandleError::Null(kind))
            } else {
                result matches Ok(handle) && handle == signed_bits(raw as int % 0x1_0000_0000)
            },
        },
{
    let raw: Option<u64> = match kind {
        SubmittedImageHandleKind::TextureId => {
            return Ok(to_signed(handles.texture));
        },
        SubmittedImageHandleKind::EglImage => handles.egl_image,
        SubmittedImageHandleKind::EglClientBuffer => handles.egl_client_buffer,
        SubmittedImageHandleKind::HardwareBufferPtr => handles.hardware_buffer,
    };
    match raw {
        None => Err(HandleError::Missing(kind)),
        Some(raw) => match truncate_native_handle(raw) {
            None => Err(HandleError::Null(kind)),
            Some(handle) => Ok(handle),
        },
    }
}

/// Whether the textures of the eyes are to be backed by hardware buffers: not where plain
/// textures are submitted by name.
pub fn use_hardware_buffer_eye_targets(
    texture_type: &str,
    kind: SubmittedImageHandleKind,
) -> (hardware: bool)
    ensures
        hardware == !(texture_type@ == "kTypeTexture"@ && kind
            == SubmittedImageHandleKind::TextureId),
{
    !(same_text(texture_type, "kTypeTexture") && kind == SubmittedImageHandleKind::TextureId)
}

/// The memory that a texture takes up, in bytes, as far as it can be said: four bytes for each
/// pixel.
pub fn texture_memory_size(width: i32, height: i32) -> (size: i32)
    ensures
        ({
            let exact = 4 * (crate::pattern::side(width) * crate::pattern::side(height));
            size == if exact > i32::MAX {
                i32::MAX as int
            } else {
                exact as int
            }
        }),
{
    let columns: u64 = if width < 1 {
        1
    } else {
        width as u64
    };
    let rows: u64 = if height < 1 {
        1
    } else {
        height as u64
    };
    assert(0 <= columns * rows <= 0x7fff_ffff * 0x7fff_ffff) by (nonlinear_arith)
        requires
            0 <= columns <= 0x7fff_ffff,
            0 <= rows <= 0x7fff_ffff,
    ;
    let pixels: u64 = columns * rows;
    if pixels > 0x1fff_ffff {
        i32::MAX
    } else {
        (4 * pixels) as i32
    }
}

// ---------------------------------------------------------------------------
// Laws
// ---------------------------------------------------------------------------

/// Pictures are presented on the headset's own mirrors where they let others draw on them, and on
/// no other display.
pub proof fn law_only_mirrors_are_presented_on(flags: i32, name: &str, result: bool)
    requires
        call_ensures(is_presentation_display, (flags, name), result),
    ensures
        result <==> flags & 8 != 0 && (name@ == "PxrScreenShot"@ || name@ == "PxrScreenRecord"@
            || name@ == "PxrScreenCast"@),
        result == presentable(flags, name@),
{
}

/// A configuration is asked for by pairs of a name and a value, with eight bits for every channel,
/// and the list ends with its mark.
pub proof fn law_configurations_have_eight_bits_a_channel(
    surface_type: i32,
    renderable_type: i32,
    attributes: Vec<i32>,
)
    requires
        call_ensures(egl_config_attributes, (surface_type, renderable_type), attributes),
    ensures
        attributes@.len() == 13,
        attributes@[0] == 0x3040 && attributes@[1] == renderable_type,
        attributes@[2] == 0x3033 && attributes@[3] == surface_type,
        attributes@[4] == 0x3024 && attributes@[5] == 8,
        attributes@[6] == 0x3023 && attributes@[7] == 8,
        attributes@[8] == 0x3022 && attributes@[9] == 8,
        attributes@[10] == 0x3021 && attributes@[11] == 8,
        attributes@[12] == 0x3038,
{
}

/// A context is asked for by its version and a hidden surface by its size. Protected content is
/// asked for exactly where it is wanted, and every list ends with its mark.
pub proof fn law_protection_is_asked_for_where_wanted(
    version: i32,
    protected: bool,
    context: Vec<i32>,
    hidden: Vec<i32>,
    window: Vec<i32>,
)
    requires
        call_ensures(egl_context_attributes, (version, protected), context),
        call_ensures(egl_pbuffer_attributes, (protected,), hidden),
        call_ensures(egl_window_attributes, (protected,), window),
    ensures
        context@[0] == 0x3098 && context@[1] == version,
        hidden@[0] == 0x3057 && hidden@[1] == 2 && hidden@[2] == 0x3056 && hidden@[3] == 2,
        protected ==> {
            &&& context@.skip(2) == seq![0x32c0i32, 1, 0x3038]
            &&& hidden@.skip(4) == seq![0x32c0i32, 1, 0x3038]
            &&& window@ == seq![0x32c0i32, 1, 0x3038]
        },
        !protected ==> {
            &&& context@.skip(2) == seq![0x3038i32]
            &&& hidden@.skip(4) == seq![0x3038i32]
            &&& window@ == seq![0x3038i32]
        },
{
    assert(context@.skip(2) =~= attributes_end(protected));
    assert(hidden@.skip(4) =~= attributes_end(protected));
}

/// Contexts are tried by protection first: all versions with the first choice, in their order,
/// then all versions with the next.
pub proof fn law_every_version_is_tried(
    protections: Seq<bool>,
    versions: Seq<i32>,
    choice: int,
    version: int,
)
    requires
        0 <= choice < protections.len(),
        0 <= version < versions.len(),
    ensures
        attempts_of(protections, versions).len() == protections.len() * versions.len(),
        0 <= choice * versions.len() + version < attempts_of(protections, versions).len(),
        attempts_of(protections, versions)[choice * versions.len() + version] == (ContextAttempt {
            protected: protections[choice],
            version: versions[version],
        }),
    decreases protections.len(),
{
    let head = protections.drop_last();
    let count = versions.len();
    lemma_attempt_count(protections, versions);
    lemma_attempt_count(head, versions);
    assert(0 <= choice * count + version < protections.len() * count) by (nonlinear_arith)
        requires
            0 <= choice < protections.len(),
            0 <= version < count,
    ;
    assert(protections.len() * count == head.len() * count + count) by (nonlinear_arith)
        requires
            protections.len() == head.len() + 1,
    ;
    if choice < head.len() {
        law_every_version_is_tried(head, versions, choice, version);
    }
}

proof fn lemma_attempt_count(protections: Seq<bool>, versions: Seq<i32>)
    ensures
        attempts_of(protections, versions).len() == protections.len() * versions.len(),
    decreases protections.len(),
{
    if protections.len() > 0 {
        let head = protections.drop_last();
        lemma_attempt_count(head, versions);
        assert(protections.len() * versions.len() == head.len() * versions.len() + versions.len())
            by (nonlinear_arith)
            requires
                protections.len() == head.len() + 1,
        ;
    } else {
        assert(0 * versions.len() == 0) by (nonlinear_arith);
    }
}

/// The compositor is told the low half of the handle of the wanted kind. A picture that was not
/// made with such a handle has none, and a handle of zero is none, except the name of a texture.
pub proof fn law_handles_are_of_the_wanted_kind(
    kind: SubmittedImageHandleKind,
    handles: ImageHandles,
    result: Result<i32, HandleError>,
)
    requires
        call_ensures(submitted_image_handle, (kind, &handles), result),
    ensures
        ({
            let raw = match kind {
                SubmittedImageHandleKind::TextureId => Some(handles.texture as int),
                SubmittedImageHandleKind::EglImage => match handles.egl_image {
                    Some(raw) => Some(raw as int),
                    None => None,
                },
                SubmittedImageHandleKind::EglClientBuffer => match handles.egl_client_buffer {
                    Some(raw) => Some(raw as int),
                    None => None,
                },
                SubmittedImageHandleKind::HardwareBufferPtr => match handles.hardware_buffer {
                    Some(raw) => Some(raw as int),
                    None => None,
                },
            };
            &&& result is Ok <==> raw is Some && (raw->0 != 0 || kind
                == SubmittedImageHandleKind::TextureId)
            &&& result matches Ok(handle) ==> (handle - raw->0) % 0x1_0000_0000 == 0
            &&& raw is None ==> result == Err::<i32, HandleError>(HandleError::Missing(kind))
            &&& raw == Some(0int) && kind != SubmittedImageHandleKind::TextureId ==> result == Err::<
                i32,
                HandleError,
            >(HandleError::Null(kind))
        }),
{
}

/// Errors name the kind of handle.
pub proof fn law_handle_errors_name_their_kind()
    ensures
        HandleError::Missing(SubmittedImageHandleKind::EglImage).message()
            == "missing EGLImage for kTypeImage submission"@,
        HandleError::Missing(SubmittedImageHandleKind::EglClientBuffer).message()
            == "missing EGLClientBuffer for kTypeImage submission"@,
        HandleError::Missing(SubmittedImageHandleKind::HardwareBufferPtr).message()
            == "missing AHardwareBuffer for kTypeImage submission"@,
        HandleError::Missing(SubmittedImageHandleKind::TextureId).message() == "missing texture"@,
        HandleError::Null(SubmittedImageHandleKind::EglImage).message()
            == "EGLImageKHR handle is null"@,
        HandleError::Null(SubmittedImageHandleKind::EglClientBuffer).message()
            == "EGLClientBuffer handle is null"@,
        HandleError::Null(SubmittedImageHandleKind::HardwareBufferPtr).message()
            == "AHardwareBuffer handle is null"@,
        HandleError::Null(SubmittedImageHandleKind::TextureId).message()
            == "texture handle is null"@,
{
}

/// A handle that is cut down keeps its low half, read with a sign, and zero is no handle.
pub proof fn law_cut_handles_keep_their_low_half(raw: u64, handle: Option<i32>)
    requires
        call_ensures(truncate_native_handle, (raw,), handle),
    ensures
        handle is None <==> raw == 0,
        handle matches Some(low) ==> (low - raw) % 0x1_0000_0000 == 0,
{
}

/// A texture takes up four bytes for every pixel, as far as that can be said.
pub proof fn law_pixels_take_up_four_bytes(width: i32, height: i32, size: i32)
    requires
        call_ensures(texture_memory_size, (width, height), size),
        0 < width <= 16384,
        0 < height <= 16384,
    ensures
        width * height < 0x2000_0000 ==> size == 4 * (width * height),
        width * height >= 0x2000_0000 ==> size == 0x7fff_ffff,
{
    assert(4 * (width * height) == 4 * (crate::pattern::side(width) * crate::pattern::side(
        height,
    )));
}

/// Only plain textures that are submitted by their name do without hardware buffers.
pub proof fn law_plain_textures_need_no_buffers(
    texture_type: &str,
    kind: SubmittedImageHandleKind,
    hardware: bool,
)
    requires
        call_ensures(use_hardware_buffer_eye_targets, (texture_type, kind), hardware),
    ensures
        !hardware <==> texture_type@ == "kTypeTexture"@ && kind
            == SubmittedImageHandleKind::TextureId,
{
}

/// The first display that mirrors a picture of the headset is chosen, and none where there is none.
pub proof fn law_first_mirror_is_chosen(
    displays: Vec<DisplayCandidate>,
    chosen: Option<usize>,
    i: int,
)
    requires
        call_ensures(choose_presentation_display, (&displays,), chosen),
        0 <= i < displays@.len(),
    ensures
        ({
            let name = displays@[i].name@;
            let mirrors = displays@[i].flags & 8 != 0 && (name == "PxrScreenShot"@ || name
                == "PxrScreenRecord"@ || name == "PxrScreenCast"@);
            &&& mirrors ==> chosen is Some && chosen->0 <= i
            &&& chosen is Some && chosen->0 == i ==> mirrors
        }),
{
    assert(suited_at(displays@, i) == presentable(displays@[i].flags, displays@[i].name@));
}

/// Every version is tried with the first protection before the second protection is.
pub proof fn law_attempts_follow_the_protections(
    protections: &[bool],
    versions: &[i32],
    attempts: Vec<ContextAttempt>,
    choice: int,
    version: int,
)
    requires
        call_ensures(context_attempts, (protections, versions), attempts),
        0 <= choice < protections@.len(),
        0 <= version < versions@.len(),
    ensures
        attempts@.len() == protections@.len() * versions@.len(),
        attempts@[choice * versions@.len() + version].protected == protections@[choice],
        attempts@[choice * versions@.len() + version].version == versions@[version],
{
    law_every_version_is_tried(protections@, versions@, choice, version);
}

} // verus!
