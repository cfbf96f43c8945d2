//! A file listing in the manner of a desktop file explorer.

use vstd::prelude::*;
use crate::canvas::Canvas;
use crate::color::{rgba_of, to_rgba, Rgba};
use crate::font::Font;
use crate::formatters::{bytes_text, format_bytes};
use crate::layer::{layer_views, LayerView};
use crate::text::{ascii_lower, is_text, to_lower};

verus! {

pub const HEADER_HEIGHT: u32 = 40;

pub const TOOLBAR_HEIGHT: u32 = 35;

pub const COLUMN_HEADER_HEIGHT: u32 = 24;

pub const ICON_SIZE: u32 = 16;

/// Where the first row begins: below title bar, toolbar and column headers.
pub const ROWS_TOP: u32 = 99;

/// What a file's icon shows.
#[derive(Debug, Clone, Copy, PartialEq, Eq, Structural)]
pub enum FileIcon {
    Folder,
    Document,
    Executable,
    Archive,
    Image,
    Video,
    Audio,
    Code,
    Unknown,
}

/// One entry of the listing.
#[derive(Debug, Clone)]
pub struct Metadata {
    pub name: String,
    pub extension: String,
    pub is_folder: bool,
    /// Size in bytes; a folder has none.
    pub size: Option<u64>,
    /// What the column "Date modified" shows.
    pub date: String,
    pub icon: FileIcon,
}

/// The colour scheme of the listing.
#[derive(Debug, Clone, Copy, PartialEq, Eq, Structural)]
pub enum Theme {
    Light,
    Dark,
}

/// How the listing looks.
pub struct Style {
    pub theme: Theme,
    pub font: Font,
    pub font_size: u32,
    pub header_font_size: u32,
    pub row_height: u32,
    pub padding: u32,
}

/// The icon of a file extension in lower case.
pub open spec fn icon_for(ext: Seq<char>) -> FileIcon {
    if ext == "jpg"@ || ext == "jpeg"@ || ext == "png"@ || ext == "webp"@ || ext == "gif"@ {
        FileIcon::Image
    } else if ext == "mp4"@ || ext == "webm"@ {
        FileIcon::Video
    } else if ext == "mp3"@ || ext == "wav"@ || ext == "ogg"@ {
        FileIcon::Audio
    } else if ext == "exe"@ || ext == "msi"@ {
        FileIcon::Executable
    } else if ext == "zip"@ || ext == "rar"@ || ext == "7z"@ {
        FileIcon::Archive
    } else if ext == "txt"@ || ext == "log"@ {
        FileIcon::Document
    } else if ext == "xml"@ || ext == "js"@ || ext == "lua"@ || ext == "rs"@ {
        FileIcon::Code
    } else {
        FileIcon::Unknown
    }
}

/// The colour of an icon.
pub open spec fn icon_color(icon: FileIcon) -> Rgba {
    match icon {
        FileIcon::Folder => rgba_of(0xFFD700),
        FileIcon::Document => rgba_of(0x4285F4),
        FileIcon::Image => rgba_of(0x34A853),
        FileIcon::Video => rgba_of(0xEA4335),
        FileIcon::Audio => rgba_of(0xFF6D01),
        FileIcon::Executable => rgba_of(0x9C27B0),
        FileIcon::Archive => rgba_of(0x795548),
        FileIcon::Code => rgba_of(0xA7A7CA),
        FileIcon::Unknown => rgba_of(0x9E9E9E),
    }
}

/// What the column "Type" shows for an icon.
pub open spec fn icon_label(icon: FileIcon) -> Seq<char> {
    match icon {
        FileIcon::Archive => "Archive"@,
        FileIcon::Audio => "Audio"@,
        FileIcon::Code => "Code"@,
        FileIcon::Document => "Text Document"@,
        FileIcon::Executable => "Application"@,
        FileIcon::Folder => "File folder"@,
        FileIcon::Image => "Image"@,
        FileIcon::Video => "Video"@,
        FileIcon::Unknown => "File"@,
    }
}

impl FileIcon {
    /// The icon that goes with a file extension, upper or lower case.
    pub fn get_icon(extension: &str) -> (icon: FileIcon)
        ensures
            icon == icon_for(ascii_lower(extension@)),
    {
        let ext = to_lower(extension);
        if is_text(&ext, "jpg") || is_text(&ext, "jpeg") || is_text(&ext, "png") || is_text(
            &ext,
            "webp",
        ) || is_text(&ext, "gif") {
            FileIcon::Image
        } else if is_text(&ext, "mp4") || is_text(&ext, "webm") {
            FileIcon::Video
        } else if is_text(&ext, "mp3") || is_text(&ext, "wav") || is_text(&ext, "ogg") {
            FileIcon::Audio
        } else if is_text(&ext, "exe") || is_text(&ext, "msi") {
            FileIcon::Executable
        } else if is_text(&ext, "zip") || is_text(&ext, "rar") || is_text(&ext, "7z") {
            FileIcon::Archive
        } else if is_text(&ext, "txt") || is_text(&ext, "log") {
            FileIcon::Document
        } else if is_text(&ext, "xml") || is_text(&ext, "js") || is_text(&ext, "lua") || is_text(
            &ext,
            "rs",
        ) {
            FileIcon::Code
        } else {
            FileIcon::Unknown
        }
    }

    /// The colour in which the icon is drawn.
    pub fn to_color(self) -> (color: Rgba)
        ensures
            color == icon_color(self),
    {
        match self {
            FileIcon::Folder => to_rgba(0xFFD700),
            FileIcon::Document => to_rgba(0x4285F4),
            FileIcon::Image => to_rgba(0x34A853),
            FileIcon::Video => to_rgba(0xEA4335),
            FileIcon::Audio => to_rgba(0xFF6D01),
            FileIcon::Executable => to_rgba(0x9C27B0),
            FileIcon::Archive => to_rgba(0x795548),
            FileIcon::Code => to_rgba(0xA7A7CA),
            FileIcon::Unknown => to_rgba(0x9E9E9E),
        }
    }

    /// What the column "Type" shows for this icon.
    pub fn label(self) -> (text: String)
        ensures
            text@ == icon_label(self),
    {
        match self {
            FileIcon::Archive => String::from_str("Archive"),
            FileIcon::Audio => String::from_str("Audio"),
            FileIcon::Code => String::from_str("Code"),
            FileIcon::Document => String::from_str("Text Document"),
            FileIcon::Executable => String::from_str("Application"),
            FileIcon::Folder => String::from_str("File folder"),
            FileIcon::Image => String::from_str("Image"),
            FileIcon::Video => String::from_str("Video"),
            FileIcon::Unknown => String::from_str("File"),
        }
    }
}

impl Metadata {
    /// The entry of a folder: no extension, no size, the folder icon.
    pub fn new_folder(name: String, date: String) -> (entry: Metadata)
        ensures
            entry.name == name,
            entry.date == date,
            entry.extension@ == Seq::<char>::empty(),
            entry.is_folder,
            entry.size is None,
            entry.icon == FileIcon::Folder,
    {
        Metadata {
            name,
            extension: String::new(),
            is_folder: true,
            size: None,
            date,
            icon: FileIcon::Folder,
        }
    }

    /// The entry of a file, with the icon that goes with its extension.
    pub fn new_file(name: String, date: String, extension: String, size: u64) -> (entry: Metadata)
        ensures
            entry.name == name,
            entry.date == date,
            entry.extension == extension,
            !entry.is_folder,
            entry.size == Some(size),
            entry.icon == icon_for(ascii_lower(extension@)),
    {
        let icon = FileIcon::get_icon(extension.as_str());
        Metadata { name, extension, is_folder: false, size: Some(size), date, icon }
    }

    /// What the column "Name" shows: the name, with a dot and the
    /// extension where a file has one.
    pub open spec fn display_name(&self) -> Seq<char> {
        if self.extension@.len() == 0 || self.is_folder {
            self.name@
        } else {
            self.name@ + "."@ + self.extension@
        }
    }

    /// What the column "Size" shows: nothing for an entry without size.
    pub open spec fn size_text(&self) -> Seq<char> {
        match self.size {
            Some(size) => bytes_text(size as nat),
            None => Seq::empty(),
        }
    }
}

/// The style that is used where none is given.
pub open spec fn default_style() -> Style {
    Style {
        theme: Theme::Light,
        font: Font::RobotoRegular,
        font_size: 12,
        header_font_size: 14,
        row_height: 22,
        padding: 8,
    }
}

impl Default for Style {
    fn default() -> (style: Style)
        ensures
            style == default_style(),
    {
        Style {
            theme: Theme::Light,
            font: Font::RobotoRegular,
            font_size: 12,
            header_font_size: 14,
            row_height: 22,
            padding: 8,
        }
    }
}

/// The background of a theme.
pub open spec fn theme_bg(theme: Theme) -> Rgba {
    match theme {
        Theme::Light => rgba_of(0xFFFFFF),
        Theme::Dark => rgba_of(0x2B2D31),
    }
}

/// The colour of title bar and column headers.
pub open spec fn theme_header_bar(theme: Theme) -> Rgba {
    match theme {
        Theme::Light => rgba_of(0xF0F0F0),
        Theme::Dark => rgba_of(0x1E1F22),
    }
}

/// The colour of the toolbar, and of every second row.
pub open spec fn theme_toolbar(theme: Theme) -> Rgba {
    match theme {
        Theme::Light => rgba_of(0xF8F8F8),
        Theme::Dark => rgba_of(0x232428),
    }
}

/// The colour of text in rows.
pub open spec fn theme_text(theme: Theme) -> Rgba {
    match theme {
        Theme::Light => rgba_of(0x000000),
        Theme::Dark => rgba_of(0xDBDEE1),
    }
}

/// The colour of text in headers.
pub open spec fn theme_header_text(theme: Theme) -> Rgba {
    match theme {
        Theme::Light => rgba_of(0x000000),
        Theme::Dark => rgba_of(0xB9BBBE),
    }
}

/// The colour of borders.
pub open spec fn theme_border(theme: Theme) -> Rgba {
    match theme {
        Theme::Light => rgba_of(0xD0D0D0),
        Theme::Dark => rgba_of(0x3F4147),
    }
}

/// The background of the highlighted row.
pub open spec fn theme_highlight(theme: Theme) -> Rgba {
    match theme {
        Theme::Light => rgba_of(0x0078D4),
        Theme::Dark => rgba_of(0x404EED),
    }
}

impl Style {
    /// The default style in the dark theme.
    pub fn dark() -> (style: Style)
        ensures
            style == (Style { theme: Theme::Dark, ..default_style() }),
    {
        Style {
            theme: Theme::Dark,
            font: Font::RobotoRegular,
            font_size: 12,
            header_font_size: 14,
            row_height: 22,
            padding: 8,
        }
    }

    fn bg_color(&self) -> (c: Rgba)
        ensures
            c == theme_bg(self.theme),
    {
        match self.theme {
            Theme::Light => to_rgba(0xFFFFFF),
            Theme::Dark => to_rgba(0x2B2D31),
        }
    }

    fn header_bar_color(&self) -> (c: Rgba)
        ensures
            c == theme_header_bar(self.theme),
    {
        match self.theme {
            Theme::Light => to_rgba(0xF0F0F0),
            Theme::Dark => to_rgba(0x1E1F22),
        }
    }

    fn toolbar_color(&self) -> (c: Rgba)
        ensures
            c == theme_toolbar(self.theme),
    {
        match self.theme {
            Theme::Light => to_rgba(0xF8F8F8),
            Theme::Dark => to_rgba(0x232428),
        }
    }

    fn alt_row_color(&self) -> (c: Rgba)
        ensures
            c == theme_toolbar(self.theme),
    {
        self.toolbar_color()
    }

    fn text_color(&self) -> (c: Rgba)
        ensures
            c == theme_text(self.theme),
    {
        match self.theme {
            Theme::Light => to_rgba(0x000000),
            Theme::Dark => to_rgba(0xDBDEE1),
        }
    }

    fn header_text_color(&self) -> (c: Rgba)
        ensures
            c == theme_header_text(self.theme),
    {
        match self.theme {
            Theme::Light => to_rgba(0x000000),
            Theme::Dark => to_rgba(0xB9BBBE),
        }
    }

    fn border_color(&self) -> (c: Rgba)
        ensures
            c == theme_border(self.theme),
    {
        match self.theme {
            Theme::Light => to_rgba(0xD0D0D0),
            Theme::Dark => to_rgba(0x3F4147),
        }
    }

    fn highlight_color(&self) -> (c: Rgba)
        ensures
            c == theme_highlight(self.theme),
    {
        match self.theme {
            Theme::Light => to_rgba(0x0078D4),
            Theme::Dark => to_rgba(0x404EED),
        }
    }

    fn highlight_text_color(&self) -> (c: Rgba)
        ensures
            c == rgba_of(0xFFFFFF),
    {
        to_rgba(0xFFFFFF)
    }
}

/// The given style, or the default one.
pub open spec fn style_or_default(style: Option<Style>) -> Style {
    match style {
        Some(s) => s,
        None => default_style(),
    }
}

/// The height of a listing of `count` entries.
pub open spec fn explorer_height(count: nat, style: Style) -> int {
    ROWS_TOP + count * style.row_height + 2 * style.padding
}

/// Where the address bar begins: after the back button, or at the padding.
pub open spec fn address_left(back: bool, style: Style) -> int {
    if back {
        80
    } else {
        style.padding as int
    }
}

/// The width of a column that takes `percent` of the whole.
pub open spec fn column_width(width: int, percent: int) -> int {
    (width * percent) / 100
}

/// The listing can be laid out: every coordinate fits in 32 bits and the
/// address bar has room between back button and padding.
pub open spec fn explorer_fits(count: nat, width: u32, back: bool, style: Style) -> bool {
    &&& explorer_height(count, style) <= u32::MAX
    &&& count > 0 ==> ROWS_TOP + (count - 1) * style.row_height + 5 <= u32::MAX
    &&& style.padding + ICON_SIZE + 5 <= u32::MAX
    &&& address_left(back, style) + style.padding <= width
    &&& address_left(back, style) + 5 <= u32::MAX
    &&& column_width(width as int, 40) + column_width(width as int, 30) + column_width(
        width as int,
        20,
    ) + 5 <= u32::MAX
}

/// Title bar, toolbar with address bar and optional back button, and
/// column headers.
pub open spec fn explorer_head(path: Seq<char>, width: int, back: bool, style: Style) -> Seq<
    LayerView,
> {
    let pad = style.padding as int;
    let font = style.font@;
    let size = style.font_size as int;
    let theme = style.theme;
    let left = address_left(back, style);
    let room = width - left - pad;
    let name_w = column_width(width, 40);
    let date_w = column_width(width, 30);
    let type_w = column_width(width, 20);
    let top = Seq::<LayerView>::empty().push(
        LayerView::Rect { w: width, h: 40, x: 0, y: 0, color: theme_header_bar(theme) },
    ).push(
        LayerView::Text {
            size: style.header_font_size as int,
            x: pad,
            y: 12,
            color: theme_header_text(theme),
            content: "File Explorer"@,
            font,
        },
    ).push(LayerView::Rect { w: width, h: 35, x: 0, y: 40, color: theme_toolbar(theme) });
    let nav = if back {
        top.push(LayerView::Rect { w: 60, h: 25, x: pad, y: 45, color: theme_border(theme) }).push(
            LayerView::Text {
                size,
                x: pad + 15,
                y: 52,
                color: theme_text(theme),
                content: "Back"@,
                font,
            },
        )
    } else {
        top
    };
    nav.push(LayerView::Rect { w: room, h: 25, x: left, y: 45, color: theme_bg(theme) }).push(
        LayerView::Line {
            x0: left,
            y0: 45,
            x1: left + room,
            y1: 45,
            width: 1,
            color: theme_border(theme),
        },
    ).push(
        LayerView::Line {
            x0: left,
            y0: 70,
            x1: left + room,
            y1: 70,
            width: 1,
            color: theme_border(theme),
        },
    ).push(
        LayerView::Text { size, x: left + 5, y: 52, color: theme_text(theme), content: path, font },
    ).push(LayerView::Rect { w: width, h: 24, x: 0, y: 75, color: theme_header_bar(theme) }).push(
        LayerView::Text {
            size,
            x: pad + 21,
            y: 81,
            color: theme_header_text(theme),
            content: "Name"@,
            font,
        },
    ).push(
        LayerView::Text {
            size,
            x: name_w + 5,
            y: 81,
            color: theme_header_text(theme),
            content: "Date modified"@,
            font,
        },
    ).push(
        LayerView::Text {
            size,
            x: name_w + date_w + 5,
            y: 81,
            color: theme_header_text(theme),
            content: "Type"@,
            font,
        },
    ).push(
        LayerView::Text {
            size,
            x: name_w + date_w + type_w + 5,
            y: 81,
            color: theme_header_text(theme),
            content: "Size"@,
            font,
        },
    ).push(
        LayerView::Line {
            x0: name_w,
            y0: 75,
            x1: name_w,
            y1: 99,
            width: 1,
            color: theme_border(theme),
        },
    ).push(
        LayerView::Line {
            x0: name_w + date_w,
            y0: 75,
            x1: name_w + date_w,
            y1: 99,
            width: 1,
            color: theme_border(theme),
        },
    ).push(
        LayerView::Line {
            x0: name_w + date_w + type_w,
            y0: 75,
            x1: name_w + date_w + type_w,
            y1: 99,
            width: 1,
            color: theme_border(theme),
        },
    )
}

/// The layers `below` with the row of entry `i` on top: its background,
/// highlighted or alternating, its icon, and its four columns of text.
pub open spec fn explorer_row(
    below: Seq<LayerView>,
    i: int,
    file: Metadata,
    width: int,
    highlighted: Option<usize>,
    style: Style,
) -> Seq<LayerView> {
    let pad = style.padding as int;
    let font = style.font@;
    let size = style.font_size as int;
    let theme = style.theme;
    let name_w = column_width(width, 40);
    let date_w = column_width(width, 30);
    let type_w = column_width(width, 20);
    let y = ROWS_TOP + i * style.row_height;
    let lit = highlighted == Some(i as usize);
    let ground = if lit {
        theme_highlight(theme)
    } else if i % 2 == 1 {
        theme_toolbar(theme)
    } else {
        theme_bg(theme)
    };
    let ink = if lit {
        rgba_of(0xFFFFFF)
    } else {
        theme_text(theme)
    };
    below.push(
        LayerView::Rect { w: width, h: style.row_height as int, x: 0, y, color: ground },
    ).push(LayerView::Rect { w: 16, h: 16, x: pad, y: y + 3, color: icon_color(file.icon) }).push(
        LayerView::Text {
            size,
            x: pad + 21,
            y: y + 5,
            color: ink,
            content: file.display_name(),
            font,
        },
    ).push(LayerView::Text { size, x: name_w + 5, y: y + 5, color: ink, content: file.date@, font })
        .push(
        LayerView::Text {
            size,
            x: name_w + date_w + 5,
            y: y + 5,
            color: ink,
            content: icon_label(file.icon),
            font,
        },
    ).push(
        LayerView::Text {
            size,
            x: name_w + date_w + type_w + 5,
            y: y + 5,
            color: ink,
            content: file.size_text(),
            font,
        },
    )
}

/// The head of the listing with the rows of the first `count` entries.
pub open spec fn explorer_layers(
    path: Seq<char>,
    files: Seq<Metadata>,
    count: int,
    width: int,
    back: bool,
    highlighted: Option<usize>,
    style: Style,
) -> Seq<LayerView>
    decreases count,
{
    if count <= 0 {
        explorer_head(path, width, back, style)
    } else {
        explorer_row(
            explorer_layers(path, files, count - 1, width, back, highlighted, style),
            count - 1,
            files[count - 1],
            width,
            highlighted,
            style,
        )
    }
}

/// Whether [`explorer_fits`] holds, for callers that cannot know.
pub fn explorer_can_fit(count: usize, width: u32, back: bool, style: &Style) -> (fits: bool)
    ensures
        fits == explorer_fits(count as nat, width, back, *style),
{
    let limit: u128 = 0xffff_ffff;
    assert(0 <= count * style.row_height <= 0xffff_ffff_ffff_ffff * 0xffff_ffff) by (nonlinear_arith)
        requires
            0 <= count <= 0xffff_ffff_ffff_ffff,
            0 <= style.row_height <= 0xffff_ffff,
    ;
    let rows: u128 = (count as u128) * (style.row_height as u128);
    let pad: u128 = style.padding as u128;
    let left: u128 = if back {
        80
    } else {
        pad
    };
    let w: u128 = width as u128;
    assert((count as nat) * style.row_height == rows);
    if 99 + rows + 2 * pad > limit {
        return false;
    }
    if count > 0 {
        assert(0 <= (count - 1) * style.row_height <= 0xffff_ffff_ffff_ffff * 0xffff_ffff)
            by (nonlinear_arith)
            requires
                0 <= count - 1 <= 0xffff_ffff_ffff_ffff,
                0 <= style.row_height <= 0xffff_ffff,
        ;
        let above: u128 = ((count - 1) as u128) * (style.row_height as u128);
        if 99 + above + 5 > limit {
            return false;
        }
    }
    pad + 21 <= limit && left + pad <= w && left + 5 <= limit && (w * 40) / 100 + (w * 30) / 100
        + (w * 20) / 100 + 5 <= limit
}

/// A column's width.
fn column(width: u32, percent: u32) -> (w: u32)
    requires
        percent <= 100,
    ensures
        w == column_width(width as int, percent as int),
        w <= width,
{
    assert(0 <= width * percent <= width * 100) by (nonlinear_arith)
        requires
            0 <= width,
            0 <= percent <= 100,
    ;
    let wide: u64 = (width as u64) * (percent as u64);
    (wide / 100) as u32
}

/// Builds the image of a file listing: a title bar, a toolbar with the
/// current path and an optional back button, column headers, and one row
/// for each entry, the highlighted one set off.
pub fn file_explorer(
    current_path: &str,
    files: &[Metadata],
    width: u32,
    show_back_btn: bool,
    highlighted_index: Option<usize>,
    style: Option<Style>,
) -> (canvas: Canvas)
    requires
        explorer_fits(files@.len(), width, show_back_btn, style_or_default(style)),
    ensures
        canvas.wf(),
        canvas.width == width,
        canvas.height == explorer_height(files@.len(), style_or_default(style)),
        canvas.bg_color == theme_bg(style_or_default(style).theme),
        layer_views(canvas.layers@) == explorer_layers(
            current_path@,
            files@,
            files@.len() as int,
            width as int,
            show_back_btn,
            highlighted_index,
            style_or_default(style),
        ),
{
    let style = match style {
        Some(s) => s,
        None => Style::default(),
    };
    let count = files.len();
    let pad = style.padding;
    let size = style.font_size;
    let row_height = style.row_height;
    assert((count as nat) * row_height <= u32::MAX);
    let rows: u32 = ((count as u64) * (row_height as u64)) as u32;
    let total_height: u32 = ROWS_TOP + rows + pad * 2;

    let mut canvas = Canvas::new(width, total_height);
    canvas.set_bg_color(style.bg_color());
    proof {
        assert(layer_views(canvas.layers@) =~= Seq::<LayerView>::empty());
    }

    canvas.rect(width, HEADER_HEIGHT, 0, 0, style.header_bar_color());
    canvas.text(
        style.header_font_size,
        pad,
        12,
        style.header_text_color(),
        String::from_str("File Explorer"),
        style.font,
    );
    canvas.rect(width, TOOLBAR_HEIGHT, 0, HEADER_HEIGHT, style.toolbar_color());

    if show_back_btn {
        canvas.rect(60, 25, pad, HEADER_HEIGHT + 5, style.border_color());
        canvas.text(
            size,
            pad + 15,
            HEADER_HEIGHT + 12,
            style.text_color(),
            String::from_str("Back"),
            style.font,
        );
    }
    let left: u32 = if show_back_btn {
        80
    } else {
        pad
    };
    let room: u32 = width - left - pad;
    canvas.rect(room, 25, left, HEADER_HEIGHT + 5, style.bg_color());
    canvas.line(left, HEADER_HEIGHT + 5, left + room, HEADER_HEIGHT + 5, 1, style.border_color());
    canvas.line(left, HEADER_HEIGHT + 30, left + room, HEADER_HEIGHT + 30, 1, style.border_color());
    canvas.text(
        size,
        left + 5,
        HEADER_HEIGHT + 12,
        style.text_color(),
        String::from_str(current_path),
        style.font,
    );

    let header_y: u32 = HEADER_HEIGHT + TOOLBAR_HEIGHT;
    canvas.rect(width, COLUMN_HEADER_HEIGHT, 0, header_y, style.header_bar_color());

    let name_w = column(width, 40);
    let date_w = column(width, 30);
    let type_w = column(width, 20);

    canvas.text(
        size,
        pad + ICON_SIZE + 5,
        header_y + 6,
        style.header_text_color(),
        String::from_str("Name"),
        style.font,
    );
    canvas.text(
        size,
        name_w + 5,
        header_y + 6,
        style.header_text_color(),
        String::from_str("Date modified"),
        style.font,
    );
    canvas.text(
        size,
        name_w + date_w + 5,
        header_y + 6,
        style.header_text_color(),
        String::from_str("Type"),
        style.font,
    );
    canvas.text(
        size,
        name_w + date_w + type_w + 5,
        header_y + 6,
        style.header_text_color(),
        String::from_str("Size"),
        style.font,
    );
    canvas.line(name_w, header_y, name_w, header_y + COLUMN_HEADER_HEIGHT, 1, style.border_color());
    canvas.line(
        name_w + date_w,
        header_y,
        name_w + date_w,
        header_y + COLUMN_HEADER_HEIGHT,
        1,
        style.border_color(),
    );
    canvas.line(
        name_w + date_w + type_w,
        header_y,
        name_w + date_w + type_w,
        header_y + COLUMN_HEADER_HEIGHT,
        1,
        style.border_color(),
    );
    assert(layer_views(canvas.layers@) == explorer_head(
        current_path@,
        width as int,
        show_back_btn,
        style,
    ));

    let mut i: usize = 0;
    while i < count
        invariant
            i <= count,
            count == files@.len(),
            pad == style.padding,
            size == style.font_size,
            row_height == style.row_height,
            name_w == column_width(width as int, 40),
            date_w == column_width(width as int, 30),
            type_w == column_width(width as int, 20),
            explorer_fits(count as nat, width, show_back_btn, style),
            canvas.wf(),
            canvas.width == width,
            canvas.height == total_height,
            canvas.bg_color == theme_bg(style.theme),
            layer_views(canvas.layers@) == explorer_layers(
                current_path@,
                files@,
                i as int,
                width as int,
                show_back_btn,
                highlighted_index,
                style,
            ),
        decreases count - i,
    {
        let f = &files[i];
        assert(i * row_height <= (count - 1) * row_height) by (nonlinear_arith)
            requires
                0 <= i <= count - 1,
                0 <= row_height,
        ;
        let y: u32 = ROWS_TOP + ((i as u64) * (row_height as u64)) as u32;
        let lit = match highlighted_index {
            Some(h) => h == i,
            None => false,
        };
        let ground = if lit {
            style.highlight_color()
        } else if i % 2 == 1 {
            style.alt_row_color()
        } else {
            style.bg_color()
        };
        let ink = if lit {
            style.highlight_text_color()
        } else {
            style.text_color()
        };
        canvas.rect(width, row_height, 0, y, ground);
        canvas.rect(ICON_SIZE, ICON_SIZE, pad, y + 3, f.icon.to_color());

        let mut name = f.name.clone();
        if !(f.extension.as_str().is_empty() || f.is_folder) {
            name.append(".");
            name.append(f.extension.as_str());
        }
        canvas.text(size, pad + ICON_SIZE + 5, y + 5, ink, name, style.font);
        canvas.text(size, name_w + 5, y + 5, ink, f.date.clone(), style.font);
        canvas.text(size, name_w + date_w + 5, y + 5, ink, f.icon.label(), style.font);
        let size_text = match f.size {
            Some(bytes) => format_bytes(bytes),
            None => String::new(),
        };
        canvas.text(size, name_w + date_w + type_w + 5, y + 5, ink, size_text, style.font);
        i = i + 1;
    }
    canvas
}

} // verus!
