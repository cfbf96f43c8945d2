//! A list of the players that are online, with an optional graph of the
//! player count below it.

use vstd::prelude::*;
use crate::bitmap::Pixels;
use crate::cache::{cache_key, key_of, nominal_px, nominal_size, EmoteCache};
use crate::canvas::Canvas;
use crate::color::Rgba;
use crate::emote::{
    lemma_views_push, parse_all_emotes, parsed_sources, views, EmoteSource, SourceView,
};
use crate::error::CanvasError;
use crate::font::{assume_text_width, text_width, Font, FontKey, FontSet};
use crate::layer::{layer_views, LayerView, Scale};
use crate::raster::{font_height, font_height_units};
use crate::templates::graph::{
    clamp_u32, default_graph_opts, graph_playercount, with_graph, PlayerGraphOpts,
};

verus! {

/// The width of the image.
pub const LIST_WIDTH: u32 = 600;

/// The height of the title bar.
pub const LIST_HEADER: u32 = 50;

/// The room that the graph takes below the rows.
pub const LIST_GRAPH: u32 = 120;

/// Where the names begin.
pub const LIST_NAME_X: u32 = 50;

/// Room between an emote and what follows it.
pub const EMOTE_GAP: u32 = 4;

/// One player of the list.
pub struct PlayerEntry {
    pub name: String,
    pub uptime: String,
    pub is_admin: bool,
    pub emoji: String,
}

/// How the list looks.
pub struct Style {
    /// What the title says where nobody is online.
    pub playerlist_empty: String,
    /// Whether emotes in a player's status are drawn.
    pub render_discord_emotes: bool,
    pub bg_color: Rgba,
    pub header_bar_color: Rgba,
    pub graph_color: Rgba,
    pub text_color: Rgba,
    pub admin_color: Rgba,
    pub font: Font,
    pub font_size: u32,
    pub row_height: u32,
    pub padding: u32,
}

/// A style as a plain value.
pub struct StyleView {
    pub playerlist_empty: Seq<char>,
    pub render_discord_emotes: bool,
    pub bg_color: Rgba,
    pub header_bar_color: Rgba,
    pub graph_color: Rgba,
    pub text_color: Rgba,
    pub admin_color: Rgba,
    pub font: FontKey,
    pub font_size: u32,
    pub row_height: u32,
    pub padding: u32,
}

impl View for Style {
    type V = StyleView;

    open spec fn view(&self) -> StyleView {
        StyleView {
            playerlist_empty: self.playerlist_empty@,
            render_discord_emotes: self.render_discord_emotes,
            bg_color: self.bg_color,
            header_bar_color: self.header_bar_color,
            graph_color: self.graph_color,
            text_color: self.text_color,
            admin_color: self.admin_color,
            font: self.font@,
            font_size: self.font_size,
            row_height: self.row_height,
            padding: self.padding,
        }
    }
}

/// The style that is used where none is given.
pub open spec fn default_style() -> StyleView {
    StyleView {
        playerlist_empty: "Nobody playing"@,
        render_discord_emotes: false,
        bg_color: Rgba { r: 5, g: 5, b: 5, a: 255 },
        header_bar_color: Rgba { r: 10, g: 10, b: 10, a: 255 },
        graph_color: Rgba { r: 201, g: 55, b: 93, a: 255 },
        text_color: Rgba { r: 255, g: 255, b: 255, a: 255 },
        admin_color: Rgba { r: 247, g: 67, b: 74, a: 255 },
        font: FontKey::UbuntuRegular,
        font_size: 24,
        row_height: 36,
        padding: 5,
    }
}

impl Default for Style {
    fn default() -> (style: Style)
        ensures
            style@ == default_style(),
    {
        Style {
            playerlist_empty: String::from_str("Nobody playing"),
            render_discord_emotes: false,
            bg_color: Rgba { r: 5, g: 5, b: 5, a: 255 },
            header_bar_color: Rgba { r: 10, g: 10, b: 10, a: 255 },
            graph_color: Rgba { r: 201, g: 55, b: 93, a: 255 },
            text_color: Rgba { r: 255, g: 255, b: 255, a: 255 },
            admin_color: Rgba { r: 247, g: 67, b: 74, a: 255 },
            font: Font::UbuntuRegular,
            font_size: 24,
            row_height: 36,
            padding: 5,
        }
    }
}

/// The given style, or the default one.
pub open spec fn style_view(style: Option<Style>) -> StyleView {
    match style {
        Some(s) => s@,
        None => default_style(),
    }
}

/// What a template hands back: the canvas, and the emote sources that
/// were not in the cache and should be fetched for a later rendering.
pub struct PlayerList {
    pub canvas: Canvas,
    pub requests: Vec<EmoteSource>,
}

/// The layers and the fetch requests gathered so far.
pub struct Draft {
    pub layers: Seq<LayerView>,
    pub requests: Seq<SourceView>,
}

/// The height of a list of `count` players.
pub open spec fn playerlist_height(count: nat, display_graph: bool, style: StyleView) -> int {
    LIST_HEADER + count * style.row_height + 2 * style.padding + if display_graph {
        LIST_GRAPH as int
    } else {
        0
    }
}

/// The list can be laid out: every row fits in 32 bits, and so does the
/// size of the title.
pub open spec fn playerlist_fits(count: nat, display_graph: bool, style: StyleView) -> bool {
    &&& playerlist_height(count, display_graph, style) <= u32::MAX
    &&& count > 0 ==> LIST_HEADER + (count - 1) * style.row_height + 5 <= u32::MAX
    &&& style.font_size + 8 <= u32::MAX
}

/// The font data that the list is set in, or why it cannot be set.
pub open spec fn playerlist_font(style: StyleView, fonts: &FontSet) -> Result<
    Seq<u8>,
    CanvasError,
> {
    match fonts.data(style.font) {
        None => Err(CanvasError::FontMissing),
        Some(bytes) => if font_height_units(bytes) is None {
            Err(CanvasError::FontInvalid)
        } else {
            Ok(bytes)
        },
    }
}

/// The estimated width of a text, 0 where the font cannot be read.
pub open spec fn width_px(font: Seq<u8>, text: Seq<char>, size: int) -> int {
    match text_width(font, text, size) {
        Some(w) => w,
        None => 0,
    }
}

/// How far below the top of its row an emote bitmap is set: it is centred
/// for the text size and raised by two pixels, never above the row.
pub open spec fn emote_drop(style: StyleView) -> int {
    let slack = if style.row_height > style.font_size {
        (style.row_height - style.font_size) / 2
    } else {
        0
    };
    if slack > 2 {
        slack - 2
    } else {
        0
    }
}

/// The title bar and the title, centred by its estimated width.
pub open spec fn playerlist_head(count: nat, style: StyleView, font: Seq<u8>) -> Seq<LayerView> {
    let title = if count == 0 {
        style.playerlist_empty
    } else {
        "Players online"@
    };
    let half = width_px(font, title, style.font_size + 8) / 2;
    let x = if half > LIST_WIDTH / 2 {
        0
    } else {
        LIST_WIDTH / 2 - half
    };
    Seq::<LayerView>::empty().push(
        LayerView::Rect {
            w: LIST_WIDTH as int,
            h: LIST_HEADER as int,
            x: 0,
            y: 0,
            color: style.header_bar_color,
        },
    ).push(
        LayerView::Text {
            size: style.font_size + 8,
            x,
            y: 7,
            color: style.text_color,
            content: title,
            font: style.font,
        },
    )
}

/// The scale that brings an emote bitmap to the size of the text: the text
/// size over the side at which the source's bitmaps are served.
pub open spec fn emote_scale(source: SourceView, style: StyleView) -> Scale {
    Scale { num: style.font_size, den: nominal_px(source) as u32 }
}

/// One emote of a player's status, set at column `x` of the row at `y`:
/// its bitmap where the cache has one, scaled to the text size and
/// followed by a gap; otherwise a request to fetch it, and for a code point
/// the character as text. Gives the draft and the column for what follows.
pub open spec fn emote_slot(
    draft: Draft,
    x: int,
    source: SourceView,
    y: int,
    ink: Rgba,
    style: StyleView,
    cache: &EmoteCache,
    font: Seq<u8>,
) -> (Draft, int) {
    match cache.lookup(key_of(source)) {
        Some(image) => (
            Draft {
                layers: draft.layers.push(
                    LayerView::Image {
                        scale: emote_scale(source, style),
                        x: clamp_u32(x),
                        y: y + emote_drop(style),
                        image: image@,
                    },
                ),
                requests: draft.requests,
            },
            x + style.font_size + EMOTE_GAP,
        ),
        None => match source {
            SourceView::Unicode(point) => (
                Draft {
                    layers: draft.layers.push(
                        LayerView::Text {
                            size: style.font_size as int,
                            x: clamp_u32(x),
                            y: y + 5,
                            color: ink,
                            content: seq![point as char],
                            font: style.font,
                        },
                    ),
                    requests: draft.requests.push(source),
                },
                x + width_px(font, seq![point as char], style.font_size as int),
            ),
            SourceView::Discord(_) => (
                Draft { layers: draft.layers, requests: draft.requests.push(source) },
                x,
            ),
        },
    }
}

/// A code point that the cache does not hold is set as text and asked
/// for: its slot adds no bitmap, it adds the character as a text layer in
/// the row's colour, and one request for the code point.
pub proof fn lemma_missed_code_point(
    draft: Draft,
    x: int,
    point: u32,
    y: int,
    ink: Rgba,
    style: StyleView,
    cache: &EmoteCache,
    font: Seq<u8>,
)
    requires
        cache.lookup(key_of(SourceView::Unicode(point))) is None,
    ensures
        ({
            let slot = emote_slot(draft, x, SourceView::Unicode(point), y, ink, style, cache, font).0;
            &&& slot.requests == draft.requests.push(SourceView::Unicode(point))
            &&& slot.layers.len() == draft.layers.len() + 1
            &&& slot.layers.drop_last() == draft.layers
            &&& slot.layers.last() matches LayerView::Text { content, color, .. } && content
                == seq![point as char] && color == ink
        }),
{
    let slot = emote_slot(draft, x, SourceView::Unicode(point), y, ink, style, cache, font).0;
    assert(slot.layers.drop_last() =~= draft.layers);
}

/// The first `count` emotes of a status, set one after the other.
pub open spec fn emote_slots(
    draft: Draft,
    x: int,
    sources: Seq<SourceView>,
    count: int,
    y: int,
    ink: Rgba,
    style: StyleView,
    cache: &EmoteCache,
    font: Seq<u8>,
) -> (Draft, int)
    decreases count,
{
    if count <= 0 {
        (draft, x)
    } else {
        let (before, at) = emote_slots(draft, x, sources, count - 1, y, ink, style, cache, font);
        emote_slot(before, at, sources[count - 1], y, ink, style, cache, font)
    }
}

/// What follows the name and the emotes: a dash and the time online.
pub open spec fn uptime_text(uptime: Seq<char>) -> Seq<char> {
    if uptime.len() == 0 {
        " - "@ + "Just joined"@
    } else {
        " - "@ + uptime
    }
}

/// The row of player `i` on top of a draft: its background, the name, the
/// emotes of the status where they are asked for, and the time online.
pub open spec fn player_row(
    draft: Draft,
    i: int,
    player: PlayerEntry,
    style: StyleView,
    cache: &EmoteCache,
    font: Seq<u8>,
) -> Draft {
    let y = LIST_HEADER + i * style.row_height;
    let ground = if i % 2 == 0 {
        Rgba { r: 10, g: 10, b: 10, a: 255 }
    } else {
        Rgba { r: 20, g: 20, b: 20, a: 255 }
    };
    let ink = if player.is_admin {
        style.admin_color
    } else {
        style.text_color
    };
    let named = Draft {
        layers: draft.layers.push(
            LayerView::Rect {
                w: LIST_WIDTH as int,
                h: style.row_height as int,
                x: 0,
                y,
                color: ground,
            },
        ).push(
            LayerView::Text {
                size: style.font_size as int,
                x: LIST_NAME_X as int,
                y: y + 5,
                color: ink,
                content: player.name@,
                font: style.font,
            },
        ),
        requests: draft.requests,
    };
    let after_name = LIST_NAME_X + width_px(font, player.name@, style.font_size as int);
    let (decorated, x) = if style.render_discord_emotes && player.emoji@.len() > 0 {
        emote_slots(
            named,
            after_name,
            parsed_sources(player.emoji@),
            parsed_sources(player.emoji@).len() as int,
            y,
            ink,
            style,
            cache,
            font,
        )
    } else {
        (named, after_name)
    };
    Draft {
        layers: decorated.layers.push(
            LayerView::Text {
                size: style.font_size as int,
                x: clamp_u32(x),
                y: y + 5,
                color: ink,
                content: uptime_text(player.uptime@),
                font: style.font,
            },
        ),
        requests: decorated.requests,
    }
}

/// The row of a player whose status is one code point that the cache does
/// not hold: the row adds its background, the name, the code point as
/// text and the time online, no bitmap among them, and it asks for the
/// code point once.
pub proof fn lemma_row_with_missed_code_point(
    draft: Draft,
    i: int,
    player: PlayerEntry,
    point: u32,
    style: StyleView,
    cache: &EmoteCache,
    font: Seq<u8>,
)
    requires
        style.render_discord_emotes,
        player.emoji@.len() > 0,
        parsed_sources(player.emoji@) == seq![SourceView::Unicode(point)],
        cache.lookup(key_of(SourceView::Unicode(point))) is None,
    ensures
        ({
            let row = player_row(draft, i, player, style, cache, font);
            let n = draft.layers.len() as int;
            &&& row.requests == draft.requests.push(SourceView::Unicode(point))
            &&& row.layers.len() == n + 4
            &&& row.layers.subrange(0, n) == draft.layers
            &&& row.layers[n] is Rect
            &&& row.layers[n + 1] is Text
            &&& row.layers[n + 2] matches LayerView::Text { content, .. } && content
                == seq![point as char]
            &&& row.layers[n + 3] is Text
        }),
{
    reveal_with_fuel(emote_slots, 2);
    let row = player_row(draft, i, player, style, cache, font);
    let sources = parsed_sources(player.emoji@);
    assert(sources.len() == 1);
    assert(sources[0] == SourceView::Unicode(point));
    assert(row.layers.subrange(0, draft.layers.len() as int) =~= draft.layers);
}

/// The head of the list with the rows of the first `count` players.
pub open spec fn player_rows(
    players: Seq<PlayerEntry>,
    count: int,
    style: StyleView,
    cache: &EmoteCache,
    font: Seq<u8>,
) -> Draft
    decreases count,
{
    if count <= 0 {
        Draft { layers: playerlist_head(players.len(), style, font), requests: Seq::empty() }
    } else {
        player_row(
            player_rows(players, count - 1, style, cache, font),
            count - 1,
            players[count - 1],
            style,
            cache,
            font,
        )
    }
}

/// The options of the graph below the list: the defaults in the style's colour.
pub open spec fn list_graph_opts(style: StyleView) -> PlayerGraphOpts {
    PlayerGraphOpts { line_color: style.graph_color, ..default_graph_opts() }
}

/// Everything the list consists of: the rows of all players and, where
/// asked for, the graph on top of them.
pub open spec fn playerlist_draft(
    players: Seq<PlayerEntry>,
    graph_data: Seq<i32>,
    display_graph: bool,
    style: StyleView,
    cache: &EmoteCache,
    font: Seq<u8>,
) -> Draft {
    let rows = player_rows(players, players.len() as int, style, cache, font);
    if display_graph {
        Draft {
            layers: with_graph(
                rows.layers,
                graph_data,
                LIST_WIDTH as int,
                playerlist_height(players.len(), display_graph, style),
                list_graph_opts(style),
            ),
            requests: rows.requests,
        }
    } else {
        rows
    }
}

/// `char::to_string`: the text that consists of one character.
#[verifier::external_body]
fn char_text(c: char) -> (text: String)
    ensures
        text@ == seq![c],
{
    c.to_string()
}

/// A column brought into the range of 32 bits.
fn clamp_column(x: u64) -> (c: u32)
    ensures
        c == clamp_u32(x as int),
{
    if x > 0xffff_ffff {
        0xffff_ffff
    } else {
        x as u32
    }
}

/// Whether [`playerlist_fits`] holds, for callers that cannot know.
pub fn playerlist_can_fit(count: usize, display_graph: bool, style: &Style) -> (fits: bool)
    ensures
        fits == playerlist_fits(count as nat, display_graph, style@),
{
    let limit: u128 = 0xffff_ffff;
    assert(0 <= count * style.row_height <= 0xffff_ffff_ffff_ffff * 0xffff_ffff) by (nonlinear_arith)
        requires
            0 <= count <= 0xffff_ffff_ffff_ffff,
            0 <= style.row_height <= 0xffff_ffff,
    ;
    let rows: u128 = (count as u128) * (style.row_height as u128);
    let graph: u128 = if display_graph {
        120
    } else {
        0
    };
    if 50 + rows + 2 * (style.padding as u128) + graph > limit {
        return false;
    }
    if count > 0 {
        assert(0 <= (count - 1) * style.row_height <= 0xffff_ffff_ffff_ffff * 0xffff_ffff)
            by (nonlinear_arith)
            requires
                0 <= count - 1 <= 0xffff_ffff_ffff_ffff,
                0 <= style.row_height <= 0xffff_ffff,
        ;
        let above: u128 = ((count - 1) as u128) * (style.row_height as u128);
        if 50 + above + 5 > limit {
            return false;
        }
    }
    style.font_size as u128 + 8 <= limit
}

/// Sets one emote of a status and gives the column for what follows.
fn place_emote(
    canvas: &mut Canvas,
    requests: &mut Vec<EmoteSource>,
    x: u64,
    emote: &EmoteSource,
    y: u32,
    ink: Rgba,
    style: &Style,
    cache: &EmoteCache,
    font: &[u8],
    Ghost(draft): Ghost<Draft>,
) -> (next: u64)
    requires
        cache.wf(),
        old(canvas).wf(),
        font_height_units(font@) is Some,
        layer_views(old(canvas).layers@) == draft.layers,
        views(old(requests)@) == draft.requests,
        y + emote_drop(style@) <= u32::MAX,
        y + 5 <= u32::MAX,
        x <= 0xffff_ffff_ffff * 4,
    ensures
        final(canvas).wf(),
        final(canvas).width == old(canvas).width,
        final(canvas).height == old(canvas).height,
        final(canvas).bg_color == old(canvas).bg_color,
        (
            Draft { layers: layer_views(final(canvas).layers@), requests: views(final(requests)@) },
            next as int,
        ) == emote_slot(draft, x as int, emote@, y as int, ink, style@, cache, font@),
        next <= x + 0xffff_ffff_ffff,
{
    match cache.get_source(emote) {
        Some(image) => {
            let slack: u32 = style.row_height.saturating_sub(style.font_size) / 2;
            let drop: u32 = slack.saturating_sub(2);
            canvas.image(
                Scale { num: style.font_size, den: nominal_size(emote) },
                clamp_column(x),
                y + drop,
                image.duplicate(),
            );
            x + style.font_size as u64 + EMOTE_GAP as u64
        },
        None => {
            let copy = emote.duplicate();
            proof {
                lemma_views_push(requests@, copy);
            }
            requests.push(copy);
            match emote {
                EmoteSource::Unicode(c) => {
                    let text = char_text(*c);
                    proof {
                        vstd::utf8::char_u32_cast(*c, *c as u32);
                        assert(text@ == seq![(*c as u32) as char]);
                    }
                    let wide = match assume_text_width(text.as_str(), style.font_size, font) {
                        Some(w) => w,
                        None => 0,
                    };
                    canvas.text(style.font_size, clamp_column(x), y + 5, ink, text, style.font);
                    x + wide as u64
                },
                EmoteSource::Discord(_) => x,
            }
        },
    }
}

/// Builds the image of a player list: a title, one row for each player
/// with name, status emotes and time online, and the graph of the player
/// count where it is asked for. Emotes come from the cache; those that it
/// does not hold are handed back as requests.
pub fn playerlist(
    players: &[PlayerEntry],
    graph_data: &[i32],
    display_graph: bool,
    style: Option<Style>,
    cache: &EmoteCache,
    fonts: &FontSet,
) -> (out: Result<PlayerList, CanvasError>)
    requires
        cache.wf(),
        playerlist_fits(players@.len(), display_graph, style_view(style)),
    ensures
        match playerlist_font(style_view(style), fonts) {
            Err(e) => out matches Err(err) && err == e,
            Ok(font) => out matches Ok(list) && {
                let draft = playerlist_draft(
                    players@,
                    graph_data@,
                    display_graph,
                    style_view(style),
                    cache,
                    font,
                );
                &&& list.canvas.wf()
                &&& list.canvas.width == LIST_WIDTH
                &&& list.canvas.height == playerlist_height(
                    players@.len(),
                    display_graph,
                    style_view(style),
                )
                &&& list.canvas.bg_color == style_view(style).bg_color
                &&& layer_views(list.canvas.layers@) == draft.layers
                &&& views(list.requests@) == draft.requests
            },
        },
{
    let style = match style {
        Some(s) => s,
        None => Style::default(),
    };
    let font: &[u8] = match fonts.get(&style.font) {
        Some(bytes) => bytes.as_slice(),
        None => {
            return Err(CanvasError::FontMissing);
        },
    };
    if font_height(font).is_none() {
        return Err(CanvasError::FontInvalid);
    }
    let count = players.len();
    let row_height = style.row_height;
    let size = style.font_size;
    let graph_height: u32 = if display_graph {
        LIST_GRAPH
    } else {
        0
    };
    assert((count as nat) * row_height <= u32::MAX);
    let rows: u32 = ((count as u64) * (row_height as u64)) as u32;
    let height: u32 = LIST_HEADER + rows + style.padding * 2 + graph_height;
    let mut canvas = Canvas::new(LIST_WIDTH, height);
    canvas.set_bg_color(style.bg_color);
    let mut requests: Vec<EmoteSource> = Vec::new();
    proof {
        assert(layer_views(canvas.layers@) =~= Seq::<LayerView>::empty());
        assert(views(requests@) =~= Seq::<SourceView>::empty());
    }

    canvas.rect(LIST_WIDTH, LIST_HEADER, 0, 0, style.header_bar_color);
    let title = if count == 0 {
        style.playerlist_empty.clone()
    } else {
        String::from_str("Players online")
    };
    let title_size: u32 = size + 8;
    let title_width = match assume_text_width(title.as_str(), title_size, font) {
        Some(w) => w,
        None => 0,
    };
    let title_x: u32 = (LIST_WIDTH / 2).saturating_sub(title_width / 2);
    canvas.text(title_size, title_x, 7, style.text_color, title, style.font);
    assert(layer_views(canvas.layers@) == playerlist_head(count as nat, style@, font@));

    let mut i: usize = 0;
    while i < count
        invariant
            i <= count,
            count == players@.len(),
            row_height == style.row_height,
            size == style.font_size,
            cache.wf(),
            font_height_units(font@) is Some,
            playerlist_fits(count as nat, display_graph, style@),
            canvas.wf(),
            canvas.width == LIST_WIDTH,
            canvas.height == height,
            canvas.bg_color == style.bg_color,
            (Draft { layers: layer_views(canvas.layers@), requests: views(requests@) })
                == player_rows(players@, i as int, style@, cache, font@),
        decreases count - i,
    {
        let p = &players[i];
        assert(i * row_height <= (count - 1) * row_height) by (nonlinear_arith)
            requires
                0 <= i <= count - 1,
                0 <= row_height,
        ;
        assert((i + 1) * row_height <= count * row_height) by (nonlinear_arith)
            requires
                0 <= i + 1 <= count,
                0 <= row_height,
        ;
        let y: u32 = LIST_HEADER + ((i as u64) * (row_height as u64)) as u32;
        let ground = if i % 2 == 0 {
            Rgba { r: 10, g: 10, b: 10, a: 255 }
        } else {
            Rgba { r: 20, g: 20, b: 20, a: 255 }
        };
        canvas.rect(LIST_WIDTH, row_height, 0, y, ground);
        let ink = if p.is_admin {
            style.admin_color
        } else {
            style.text_color
        };
        canvas.text(size, LIST_NAME_X, y + 5, ink, p.name.clone(), style.font);
        let name_width = match assume_text_width(p.name.as_str(), size, font) {
            Some(w) => w,
            None => 0,
        };
        let mut x: u64 = LIST_NAME_X as u64 + name_width as u64;

        let ghost named = Draft {
            layers: layer_views(canvas.layers@),
            requests: views(requests@),
        };
        let ghost after_name = x as int;
        assert(y + emote_drop(style@) <= u32::MAX && y + 5 <= u32::MAX) by {
            assert(emote_drop(style@) <= row_height);
            assert((i + 1) * row_height == i * row_height + row_height) by (nonlinear_arith);
        }
        if style.render_discord_emotes && !p.emoji.as_str().is_empty() {
            let emotes = parse_all_emotes(p.emoji.as_str());
            let mut k: usize = 0;
            while k < emotes.len()
                invariant
                    k <= emotes@.len(),
                    emotes@.len() <= 3,
                    cache.wf(),
                    font_height_units(font@) is Some,
                    canvas.wf(),
                    canvas.width == LIST_WIDTH,
                    canvas.height == height,
                    canvas.bg_color == style.bg_color,
                    y + emote_drop(style@) <= u32::MAX,
                    y + 5 <= u32::MAX,
                    x <= 0xffff_ffff_ffff * (k + 1),
                    (
                        Draft { layers: layer_views(canvas.layers@), requests: views(requests@) },
                        x as int,
                    ) == emote_slots(
                        named,
                        after_name,
                        views(emotes@),
                        k as int,
                        y as int,
                        ink,
                        style@,
                        cache,
                        font@,
                    ),
                decreases emotes@.len() - k,
            {
                let ghost draft = Draft {
                    layers: layer_views(canvas.layers@),
                    requests: views(requests@),
                };
                assert(views(emotes@)[k as int] == emotes@[k as int]@);
                x = place_emote(
                    &mut canvas,
                    &mut requests,
                    x,
                    &emotes[k],
                    y,
                    ink,
                    &style,
                    cache,
                    font,
                    Ghost(draft),
                );
                k = k + 1;
            }
        }
        let mut tail = String::from_str(" - ");
        if p.uptime.as_str().is_empty() {
            tail.append("Just joined");
        } else {
            tail.append(p.uptime.as_str());
        }
        canvas.text(size, clamp_column(x), y + 5, ink, tail, style.font);
        i = i + 1;
    }

    if display_graph {
        let opts = PlayerGraphOpts {
            max_players: 16,
            width: 700,
            height: 100,
            line_color: style.graph_color,
            line_width: 4,
        };
        graph_playercount(&mut canvas, graph_data, opts);
    }
    Ok(PlayerList { canvas, requests })
}

} // verus!
