//! The tray icon's decisions: whether there is one, its menu labels and tooltip,
//! and the bitmaps its Windows icon is built from.
use crate::text::{chars_eq_str, chars_of, decimal, decimal_chars, owned, push_all, push_str, string_from};

use vstd::prelude::*;

verus! {

/// Edge of the tray icon when the system reports none.
pub const DEFAULT_ICON_EDGE: u32 = 16;

/// An image as 8-bit RGBA pixels, rows top first.
pub struct RgbaImage {
    pub rgba: Vec<u8>,
    pub width: u32,
    pub height: u32,
}

/// The view of an image: its pixel bytes and its edges.
pub open spec fn image_view(i: RgbaImage) -> (Seq<u8>, u32, u32) {
    (i.rgba@, i.width, i.height)
}

/// The view of an image that may be missing.
pub open spec fn optional_image_view(i: Option<RgbaImage>) -> Option<(Seq<u8>, u32, u32)> {
    match i {
        Some(img) => Some(image_view(img)),
        None => None,
    }
}

/// What the image crate decodes from `bytes`, its format guessed from their
/// content, converted to RGBA; `None` where it cannot.
pub uninterp spec fn decoded_image(bytes: Seq<u8>) -> Option<(Seq<u8>, u32, u32)>;

/// What the image crate decodes from `bytes` read as PNG, converted to RGBA;
/// `None` where it cannot.
pub uninterp spec fn decoded_png(bytes: Seq<u8>) -> Option<(Seq<u8>, u32, u32)>;

/// The pixels of a `width` x `height` RGBA image resampled by the image crate's
/// triangle filter to `new_width` x `new_height`.
pub uninterp spec fn resized_pixels(rgba: Seq<u8>, width: u32, height: u32, new_width: u32, new_height: u32) -> Seq<u8>;

/// Decodes an image with `image::load_from_memory` and converts it with
/// `DynamicImage::into_rgba8`. Claimed: the result is [`decoded_image`] of the
/// bytes, and a decoded buffer holds at least `width * height * 4` bytes (the
/// invariant of the crate's image buffers).
#[verifier::external_body]
fn decode_image(bytes: &[u8]) -> (r: Option<RgbaImage>)
    ensures
        optional_image_view(r) == decoded_image(bytes@),
        r matches Some(i) ==> i.rgba.len() >= i.width * i.height * 4,
{
    match image::load_from_memory(bytes) {
        Ok(img) => {
            let img = img.into_rgba8();
            let (width, height) = img.dimensions();
            Some(RgbaImage { rgba: img.into_raw(), width, height })
        },
        Err(_) => None,
    }
}

/// Decodes a PNG with `image::load_from_memory_with_format` and converts it with
/// `DynamicImage::into_rgba8`. Claimed: the result is [`decoded_png`] of the bytes,
/// with at least `width * height * 4` bytes of pixels.
#[verifier::external_body]
fn decode_png(bytes: &[u8]) -> (r: Option<RgbaImage>)
    ensures
        optional_image_view(r) == decoded_png(bytes@),
        r matches Some(i) ==> i.rgba.len() >= i.width * i.height * 4,
{
    match image::load_from_memory_with_format(bytes, image::ImageFormat::Png) {
        Ok(img) => {
            let img = img.into_rgba8();
            let (width, height) = img.dimensions();
            Some(RgbaImage { rgba: img.into_raw(), width, height })
        },
        Err(_) => None,
    }
}

/// Resamples an image with `image::imageops::resize` and the triangle filter.
/// Claimed: the result has the edges asked for and the pixels [`resized_pixels`]
/// names. The buffer must hold the image (else the crate refuses to wrap it), and
/// the intermediate and final buffers of 32-bit float samples must be allocatable
/// (else the crate panics).
#[verifier::external_body]
fn resize_image(img: RgbaImage, new_width: u32, new_height: u32) -> (r: RgbaImage)
    requires
        img.rgba.len() >= img.width * img.height * 4,
        img.width * new_height * 16 <= isize::MAX,
        new_width * new_height * 16 <= isize::MAX,
    ensures
        r.width == new_width,
        r.height == new_height,
        r.rgba@ == resized_pixels(img.rgba@, img.width, img.height, new_width, new_height),
{
    let buf = image::ImageBuffer::<image::Rgba<u8>, Vec<u8>>::from_raw(img.width, img.height, img.rgba).unwrap();
    let out = image::imageops::resize(&buf, new_width, new_height, image::imageops::FilterType::Triangle);
    RgbaImage { rgba: out.into_raw(), width: new_width, height: new_height }
}

/// Whether an image of `width` x `height` can be resampled to `new_width` x
/// `new_height`: the float buffers that takes fit in memory addresses.
pub open spec fn resizable(width: u32, new_width: u32, new_height: u32) -> bool {
    width * new_height * 16 <= isize::MAX && new_width * new_height * 16 <= isize::MAX
}

/// The image the tray shows, as [`tray_icon_image`] computes it from the decoded
/// images: the asset icon where one decoded, else the embedded one, resampled to
/// the size the notification area asks for where one is given and differs.
pub open spec fn tray_image(
    embedded: Option<(Seq<u8>, u32, u32)>,
    asset: Option<(Seq<u8>, u32, u32)>,
    small_icon: Option<(u32, u32)>,
) -> Result<(Seq<u8>, u32, u32), Seq<char>> {
    match embedded {
        None => Err("Failed to open icon path"@),
        Some(e) => {
            let chosen = match asset {
                Some(a) => a,
                None => e,
            };
            match small_icon {
                None => Ok(chosen),
                Some((w, h)) => if chosen.1 == w && chosen.2 == h {
                    Ok(chosen)
                } else if resizable(chosen.1, w, h) {
                    Ok((resized_pixels(chosen.0, chosen.1, chosen.2, w, h), w, h))
                } else {
                    Err("icon too large to resize"@)
                },
            }
        },
    }
}

/// Whenever the shipped asset decodes it is the image shown, on every platform:
/// the embedded icon only has to decode, and which image it is does not matter;
/// the asset is shown as it is, or resampled to the size the notification area
/// asks for when that differs.
pub proof fn lemma_asset_icon_preferred(
    e: (Seq<u8>, u32, u32),
    e2: (Seq<u8>, u32, u32),
    a: (Seq<u8>, u32, u32),
    small_icon: Option<(u32, u32)>,
    w: u32,
    h: u32,
)
    ensures
        tray_image(Some(e), Some(a), small_icon) == tray_image(Some(e2), Some(a), small_icon),
        tray_image(Some(e), Some(a), small_icon) == tray_image(Some(a), None, small_icon),
        small_icon is None ==> tray_image(Some(e), Some(a), small_icon) == Ok::<(Seq<u8>, u32, u32), Seq<char>>(a),
        small_icon == Some((a.1, a.2)) ==> tray_image(Some(e), Some(a), small_icon) == Ok::<(Seq<u8>, u32, u32), Seq<char>>(a),
        small_icon == Some((w, h)) && (w != a.1 || h != a.2) && resizable(a.1, w, h) ==> tray_image(
            Some(e),
            Some(a),
            small_icon,
        ) == Ok::<(Seq<u8>, u32, u32), Seq<char>>((resized_pixels(a.0, a.1, a.2, w, h), w, h)),
{
}

/// Without an asset the embedded icon is shown, as it is or resampled to the size
/// asked for; an image that does not decode shows no tray at all.
pub proof fn lemma_embedded_icon_fallback(e: (Seq<u8>, u32, u32), a: Option<(Seq<u8>, u32, u32)>, small_icon: Option<(u32, u32)>)
    ensures
        tray_image(Some(e), None, small_icon) == tray_image(Some(e), Some(e), small_icon),
        small_icon is None ==> tray_image(Some(e), None, small_icon) == Ok::<(Seq<u8>, u32, u32), Seq<char>>(e),
        tray_image(None, a, small_icon) is Err,
{
}

/// The tray's image: the embedded icon (`.ico`, or a PNG template on macOS) is
/// decoded first, and failing that there is no tray; the PNG asset shipped beside
/// the program, where it was read, replaces it when it decodes. On Windows
/// (`small_icon` given) the image is resampled to the size the notification area
/// asks for, unless it has that size already.
pub fn tray_icon_image(embedded: &[u8], asset_png: Option<&[u8]>, small_icon: Option<(u32, u32)>) -> (r: Result<RgbaImage, String>)
    ensures
        match r {
            Ok(img) => tray_image(
                decoded_image(embedded@),
                match asset_png {
                    Some(a) => decoded_png(a@),
                    None => None,
                },
                small_icon,
            ) == Ok::<(Seq<u8>, u32, u32), Seq<char>>(image_view(img)),
            Err(e) => tray_image(
                decoded_image(embedded@),
                match asset_png {
                    Some(a) => decoded_png(a@),
                    None => None,
                },
                small_icon,
            ) == Err::<(Seq<u8>, u32, u32), Seq<char>>(e@),
        },
{
    let fallback = match decode_image(embedded) {
        Some(img) => img,
        None => return Err(owned("Failed to open icon path")),
    };
    let asset = match asset_png {
        Some(bytes) => decode_png(bytes),
        None => None,
    };
    let chosen = match asset {
        Some(img) => img,
        None => fallback,
    };
    match small_icon {
        None => Ok(chosen),
        Some((w, h)) => {
            if chosen.width == w && chosen.height == h {
                Ok(chosen)
            } else {
                let fits = match (chosen.width as usize).checked_mul(h as usize) {
                    Some(a) => match a.checked_mul(16) {
                        Some(b) => b <= isize::MAX as usize,
                        None => false,
                    },
                    None => false,
                } && match (w as usize).checked_mul(h as usize) {
                    Some(a) => match a.checked_mul(16) {
                        Some(b) => b <= isize::MAX as usize,
                        None => false,
                    },
                    None => false,
                };
                if fits {
                    Ok(resize_image(chosen, w, h))
                } else {
                    Err(owned("icon too large to resize"))
                }
            }
        },
    }
}

/// Whether to run the tray: not when the `hide-tray` option is `Y`, except on
/// macOS, where the tray process still runs (and only its icon is left out).
pub fn start_tray(hide_tray_option: &str, is_macos: bool) -> (r: bool)
    ensures
        r == (hide_tray_option@ != "Y"@ || is_macos),
{
    !chars_eq_str(&chars_of(hide_tray_option), "Y") || is_macos
}

/// The size the notification area asks for, from the system metrics for a small
/// icon; a metric that is not positive falls back to [`DEFAULT_ICON_EDGE`].
pub fn small_icon_size(cx: i32, cy: i32) -> (r: (u32, u32))
    ensures
        r.0 == (if cx > 0 { cx as u32 } else { DEFAULT_ICON_EDGE }),
        r.1 == (if cy > 0 { cy as u32 } else { DEFAULT_ICON_EDGE }),
{
    (if cx > 0 { cx as u32 } else { DEFAULT_ICON_EDGE }, if cy > 0 { cy as u32 } else { DEFAULT_ICON_EDGE })
}

/// The colour and mask data of a Windows tray icon.
pub struct IconBits {
    /// The pixels as 32-bit BGRA, top row first.
    pub bgra: Vec<u8>,
    /// Bytes of the all-zero 1bpp mask: rows padded to 32 bits.
    pub mask_len: usize,
}

/// RGBA pixels turned into BGRA, four bytes at a time; a trailing partial pixel
/// is left out.
pub open spec fn rgba_to_bgra(rgba: Seq<u8>) -> Seq<u8> {
    Seq::new(
        (rgba.len() / 4 * 4) as nat,
        |i: int|
            {
                let p = i / 4 * 4;
                let k = i % 4;
                if k == 0 {
                    rgba[p + 2]
                } else if k == 2 {
                    rgba[p]
                } else {
                    rgba[i]
                }
            },
    )
}

/// The data of a Windows tray icon of `width` x `height` pixels built from `rgba`
/// (what `CreateDIBSection` and `CreateBitmap` are then given): the first
/// `width * height` pixels in the BGRA order a 32bpp DIB wants, alpha kept - exactly
/// `width * height * 4` bytes, the size of the DIB - and the length of an all-zero
/// 1bpp mask (rows padded to 32 bits) so the shell takes the transparency from the
/// alpha. An edge that is zero or does not fit an `i32`, or fewer than
/// `width * height * 4` bytes, is an error.
pub fn windows_icon_from_rgba(rgba: &Vec<u8>, width: u32, height: u32) -> (r: Result<IconBits, String>)
    ensures
        match r {
            Ok(bits) => {
                &&& 0 < width <= i32::MAX && 0 < height <= i32::MAX
                &&& rgba.len() >= width * height * 4
                &&& bits.bgra@ == rgba_to_bgra(rgba@.take(width * height * 4))
                &&& bits.bgra@.len() == width * height * 4
                &&& bits.mask_len == (width + 31) / 32 * 4 * height
            },
            Err(e) => {
                &&& !(0 < width <= i32::MAX && 0 < height <= i32::MAX && rgba.len() >= width * height * 4)
                &&& e@ == "icon data is not "@ + decimal(width as nat) + "x"@ + decimal(height as nat)
            },
        },
{
    let edges_ok = width > 0 && width <= i32::MAX as u32 && height > 0 && height <= i32::MAX as u32;
    let fits = if edges_ok {
        let w = width as u128;
        let h = height as u128;
        assert(w * h <= 0x1_0000_0000_0000_0000) by (nonlinear_arith)
            requires
                w <= 0xFFFF_FFFF,
                h <= 0xFFFF_FFFF,
        ;
        let total = w * h * 4;
        (rgba.len() as u128) >= total
    } else {
        false
    };
    if !fits {
        let mut v: Vec<char> = Vec::new();
        push_str(&mut v, "icon data is not ");
        push_all(&mut v, &decimal_chars(width as u64));
        push_str(&mut v, "x");
        push_all(&mut v, &decimal_chars(height as u64));
        return Err(string_from(&v));
    }
    assert(width * height <= width * height * 4) by (nonlinear_arith)
        requires width >= 1, height >= 1;
    let n: usize = width as usize * height as usize;
    let ghost src = rgba@.take(n * 4);
    assert(src.len() == n * 4);
    let mut out: Vec<u8> = Vec::new();
    let mut i: usize = 0;
    while i < n
        invariant
            n * 4 <= rgba.len(),
            src == rgba@.take(n * 4),
            i <= n,
            out.len() == i * 4,
            forall|j: int| 0 <= j < i * 4 ==> out@[j] == #[trigger] rgba_to_bgra(src)[j],
        decreases n - i,
    {
        let b = i * 4;
        let ghost before = out@;
        out.push(rgba[b + 2]);
        out.push(rgba[b + 1]);
        out.push(rgba[b]);
        out.push(rgba[b + 3]);
        assert forall|j: int| 0 <= j < (i + 1) * 4 implies out@[j] == #[trigger] rgba_to_bgra(src)[j] by {
            if j < i * 4 {
                assert(out@[j] == before[j]);
            } else {
                assert(j / 4 == i as int);
            }
        }
        i = i + 1;
    }
    assert(out@ =~= rgba_to_bgra(src));
    assert((width + 31) / 32 * 4 * height <= width * height * 4) by (nonlinear_arith)
        requires
            width >= 1,
            height >= 1,
    ;
    let stride = (width as usize + 31) / 32 * 4;
    Ok(IconBits { bgra: out, mask_len: stride * height as usize })
}

/// The label of the service item for a `stop-service` option: `Enable service`
/// while the service is stopped (`Y`), `Stop service` while it runs.
pub open spec fn service_label_text(stop_service_option: Seq<char>) -> Seq<char> {
    if stop_service_option == "Y"@ {
        "Enable service"@
    } else {
        "Stop service"@
    }
}

/// The `stop-service` option after the service item is clicked: `Y` is removed
/// (empty), anything else becomes `Y`.
pub open spec fn toggled_option(stop_service_option: Seq<char>) -> Seq<char> {
    if stop_service_option == "Y"@ {
        seq![]
    } else {
        "Y"@
    }
}

/// The label of the service item, see [`service_label_text`].
pub fn service_label(stop_service_option: &str) -> (r: &'static str)
    ensures
        r@ == service_label_text(stop_service_option@),
{
    if chars_eq_str(&chars_of(stop_service_option), "Y") {
        "Enable service"
    } else {
        "Stop service"
    }
}

/// Clicking the service item flips the `stop-service` option without killing
/// anything: the new value (empty to remove the flag) and the item's new label,
/// the one [`service_label`] gives for that value.
pub fn toggle_service(stop_service_option: &str) -> (r: (&'static str, &'static str))
    ensures
        r.0@ == toggled_option(stop_service_option@),
        r.1@ == service_label_text(r.0@),
{
    proof {
        reveal_strlit("Y");
        reveal_strlit("");
        assert(""@.len() == 0 && "Y"@.len() == 1);
        assert(""@ != "Y"@);
        assert(""@ =~= seq![]);
    }
    if chars_eq_str(&chars_of(stop_service_option), "Y") {
        ("", "Stop service")
    } else {
        ("Y", "Enable service")
    }
}

/// Clicking the service item always flips the service between stopped and running,
/// twice brings it back, and its label changes with it.
pub proof fn lemma_toggle_flips_the_service_state(stop_service_option: Seq<char>)
    ensures
        (toggled_option(stop_service_option) == "Y"@) != (stop_service_option == "Y"@),
        (toggled_option(toggled_option(stop_service_option)) == "Y"@) == (stop_service_option == "Y"@),
        service_label_text(toggled_option(stop_service_option)) != service_label_text(stop_service_option),
{
    reveal_strlit("Y");
    reveal_strlit("Enable service");
    reveal_strlit("Stop service");
    assert("Y"@.len() == 1);
    assert(toggled_option(stop_service_option) == "Y"@ ==> stop_service_option != "Y"@);
    assert(stop_service_option == "Y"@ ==> toggled_option(stop_service_option).len() == 0);
    assert("Enable service"@[0] != "Stop service"@[0]);
}

/// Whether the service item is shown: not when `hide-stop-service` is `Y`.
pub fn shows_service_item(hide_stop_service_option: &str) -> (r: bool)
    ensures
        r == (hide_stop_service_option@ != "Y"@),
{
    !chars_eq_str(&chars_of(hide_stop_service_option), "Y")
}

/// The key translated for the session count in the tooltip: `{<count>} sessions`.
pub fn sessions_key(count: usize) -> (r: String)
    ensures
        r@ == "{"@ + decimal(count as nat) + "} sessions"@,
{
    let mut v: Vec<char> = Vec::new();
    push_str(&mut v, "{");
    push_all(&mut v, &decimal_chars(count as u64));
    push_str(&mut v, "} sessions");
    string_from(&v)
}

/// The tooltip for `count` controlled sessions: `<app> <Service is running>` when
/// there are none, else `<app> - <Ready>` and, on a second line, the translated
/// session count. The three texts are the translations of `Service is running`,
/// `Ready` and [`sessions_key`].
pub fn tooltip(count: usize, app_name: &str, running_text: &str, ready_text: &str, sessions_text: &str) -> (r: String)
    ensures
        count == 0 ==> r@ == app_name@ + " "@ + running_text@,
        count != 0 ==> r@ == app_name@ + " - "@ + ready_text@ + "\n"@ + sessions_text@,
{
    let mut v: Vec<char> = Vec::new();
    push_str(&mut v, app_name);
    if count == 0 {
        push_str(&mut v, " ");
        push_str(&mut v, running_text);
    } else {
        push_str(&mut v, " - ");
        push_str(&mut v, ready_text);
        push_str(&mut v, "\n");
        push_str(&mut v, sessions_text);
    }
    string_from(&v)
}

/// The least time between two left clicks on the tray icon that are both taken.
pub const CLICK_DEBOUNCE_MS: u64 = 1000;

/// The entries of the tray menu, top first.
#[derive(PartialEq, Eq, Structural, Clone, Copy, Debug)]
pub enum TrayItem {
    /// The read-only row with this machine's id.
    Id,
    /// Stop or enable the service, see [`toggle_service`].
    ToggleService,
    /// Exit the whole application.
    Exit,
}

/// The tray menu: the id row, the service item unless it is hidden, and Exit.
/// (An Open item exists and is handled, but is not shown.)
pub fn menu_items(shows_service_item: bool) -> (r: Vec<TrayItem>)
    ensures
        shows_service_item ==> r@ == seq![TrayItem::Id, TrayItem::ToggleService, TrayItem::Exit],
        !shows_service_item ==> r@ == seq![TrayItem::Id, TrayItem::Exit],
{
    let mut v: Vec<TrayItem> = Vec::new();
    v.push(TrayItem::Id);
    if shows_service_item {
        v.push(TrayItem::ToggleService);
    }
    v.push(TrayItem::Exit);
    v
}

/// What reaches the tray's event loop.
pub enum TrayInput {
    /// The event loop has started.
    Started { hide_tray_option: String },
    /// The service item was clicked; the `stop-service` option as it is now.
    ServiceItemClicked { stop_service_option: String },
    /// Exit was clicked.
    ExitClicked,
    /// Open was clicked.
    OpenClicked,
    /// The icon was left-clicked and released, this long after the last click
    /// that was taken.
    IconLeftClicked { since_last_click_ms: u64 },
    /// The service reported how many sessions it controls.
    SessionCount { count: usize },
}

/// What the event loop does in answer.
#[derive(Clone, Copy, Debug)]
pub enum TrayAction {
    /// Nothing.
    Ignore,
    /// Build and show the icon, with the menu and the tooltip for no session.
    ShowIcon,
    /// Set the `stop-service` option to `value` (empty removes it) and relabel the
    /// service item `label`; nothing is killed and the tray keeps running.
    SetStopService { value: &'static str, label: &'static str },
    /// On Windows: hide the icon (ending the process skips what would remove it),
    /// then exit the application.
    ExitApplication,
    /// Elsewhere: leave the event loop.
    ExitLoop,
    /// Open the main window.
    OpenWindow,
    /// Take the click: remember its time.
    RememberClick,
    /// A click too soon after the last one: nothing more is done this turn.
    SkipTurn,
    /// Show the tooltip for this many sessions, see [`tooltip`].
    SetTooltip { count: usize },
}

/// What the tray does on `input`; `is_windows` says whether it runs on Windows,
/// where clicks and session counts come in.
pub open spec fn tray_reaction(input: TrayInput, is_windows: bool) -> TrayAction {
    match input {
        TrayInput::Started { hide_tray_option } => if hide_tray_option@ == "Y"@ {
            TrayAction::Ignore
        } else {
            TrayAction::ShowIcon
        },
        TrayInput::ServiceItemClicked { stop_service_option } => if stop_service_option@ == "Y"@ {
            TrayAction::SetStopService { value: "", label: "Stop service" }
        } else {
            TrayAction::SetStopService { value: "Y", label: "Enable service" }
        },
        TrayInput::ExitClicked => if is_windows {
            TrayAction::ExitApplication
        } else {
            TrayAction::ExitLoop
        },
        TrayInput::OpenClicked => TrayAction::OpenWindow,
        TrayInput::IconLeftClicked { since_last_click_ms } => if !is_windows {
            TrayAction::Ignore
        } else if since_last_click_ms < CLICK_DEBOUNCE_MS {
            TrayAction::SkipTurn
        } else {
            TrayAction::RememberClick
        },
        TrayInput::SessionCount { count } => if is_windows {
            TrayAction::SetTooltip { count }
        } else {
            TrayAction::Ignore
        },
    }
}

/// One turn of the tray's event loop: what to do on `input`. The labels and
/// values of [`TrayAction::SetStopService`] are those of [`toggle_service`].
pub fn tray_step(input: TrayInput, is_windows: bool) -> (a: TrayAction)
    ensures
        match (a, tray_reaction(input, is_windows)) {
            (
                TrayAction::SetStopService { value: v1, label: l1 },
                TrayAction::SetStopService { value: v2, label: l2 },
            ) => v1@ == v2@ && l1@ == l2@,
            (x, y) => x == y,
        },
{
    match input {
        TrayInput::Started { hide_tray_option } => {
            if chars_eq_str(&chars_of(hide_tray_option.as_str()), "Y") {
                TrayAction::Ignore
            } else {
                TrayAction::ShowIcon
            }
        },
        TrayInput::ServiceItemClicked { stop_service_option } => {
            proof {
                reveal_strlit("Y");
                reveal_strlit("");
                reveal_strlit("Enable service");
                reveal_strlit("Stop service");
                assert(""@.len() == 0 && "Y"@.len() == 1);
                assert(""@ =~= seq![]);
            }
            let (value, label) = toggle_service(stop_service_option.as_str());
            TrayAction::SetStopService { value, label }
        },
        TrayInput::ExitClicked => {
            if is_windows {
                TrayAction::ExitApplication
            } else {
                TrayAction::ExitLoop
            }
        },
        TrayInput::OpenClicked => TrayAction::OpenWindow,
        TrayInput::IconLeftClicked { since_last_click_ms } => {
            if !is_windows {
                TrayAction::Ignore
            } else if since_last_click_ms < CLICK_DEBOUNCE_MS {
                TrayAction::SkipTurn
            } else {
                TrayAction::RememberClick
            }
        },
        TrayInput::SessionCount { count } => {
            if is_windows {
                TrayAction::SetTooltip { count }
            } else {
                TrayAction::Ignore
            }
        },
    }
}

/// Whether a session count the service reported is passed on to the tray: only
/// when it changed since the last one passed on.
pub fn start_query_session_count(last_count: usize, count: usize) -> (r: bool)
    ensures
        r == (count != last_count),
{
    count != last_count
}

/// The menu item's text for this machine's id: `<ID:> <id>`.
pub fn id_item(id_label: &str, id: &str) -> (r: String)
    ensures
        r@ == id_label@ + " "@ + id@,
{
    let mut v: Vec<char> = Vec::new();
    push_str(&mut v, id_label);
    push_str(&mut v, " ");
    push_str(&mut v, id);
    string_from(&v)
}

} // verus!
