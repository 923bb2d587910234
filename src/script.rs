use vstd::prelude::*;

verus! {

/// Which windows a script acts on.
pub enum WindowSelection {
    /// Windows whose class equals the given text.
    ByClassExact(String),
    /// Windows whose class matches the given regular expression.
    ByClassRegex(String),
    /// Windows whose title matches the given regular expression, ignoring case.
    ByTitleRegex(String),
    /// The window that has the focus.
    Focused,
}

/// When a window is centered on its screen.
#[derive(Clone, Copy, Debug, PartialEq, Eq, Structural)]
pub enum CenterMode {
    /// Whenever the window is raised.
    Always,
    /// Only when the window was just launched.
    InitialOnly,
}

/// How a window is placed and sized. Sizes are tokens: a pixel count (`"800"`) or a
/// share of the screen (`"80%"`). Scale factor and aspect bound are decimal
/// literals.
pub struct GeometryPolicy {
    pub center: Option<CenterMode>,
    pub scale_factor: Option<String>,
    pub max_aspect: Option<String>,
    pub width: Option<String>,
    pub height: Option<String>,
    pub min_width: Option<String>,
    pub max_width: Option<String>,
    pub min_height: Option<String>,
    pub max_height: Option<String>,
}

/// `pre`, the token, then `post`, when the token is given; nothing otherwise.
pub open spec fn clause(o: Option<String>, pre: Seq<char>, post: Seq<char>) -> Seq<char> {
    match o {
        Some(v) => pre + v@ + post,
        None => seq![],
    }
}

pub open spec fn needs_resize(g: GeometryPolicy) -> bool {
    g.width is Some || g.height is Some || g.scale_factor is Some || g.min_width is Some
        || g.max_width is Some || g.min_height is Some || g.max_height is Some
}

pub open spec fn reshapes(g: GeometryPolicy) -> bool {
    needs_resize(g) || g.center is Some
}

/// The helper that turns a size token into pixels, present only when sizes are used.
pub open spec fn size_helper(g: GeometryPolicy) -> Seq<char> {
    if needs_resize(g) {
        "function parseSize(v,s){if(v===null||v==='')return null;var t=String(v);if(t.endsWith('%'))return s*(parseFloat(t.slice(0,-1))/100);return parseFloat(t);}\n"@
    } else {
        seq![]
    }
}

/// The size before bounds: scaled to the screen, or the explicit width and height.
pub open spec fn base_size(g: GeometryPolicy) -> Seq<char> {
    match g.scale_factor {
        Some(sf) => "var wsW=sw,wsH=sh;"@ + clause(
            g.max_aspect,
            "if((wsW/wsH)>"@,
            "){wsH=Math.min(wsW,wsH);wsW=wsH*"@,
        ) + match g.max_aspect {
            Some(ma) => ma@ + ";}"@,
            None => seq![],
        } + "w=wsW*"@ + sf@ + ";h=wsH*"@ + sf@ + ";"@,
        None => clause(g.width, "w=parseSize('"@, "',sw)||w;"@) + clause(
            g.height,
            "h=parseSize('"@,
            "',sh)||h;"@,
        ),
    }
}

/// The lower and upper bounds on width and height, each applied on its own.
pub open spec fn bounds(g: GeometryPolicy) -> Seq<char> {
    clause(g.min_width, "var minW=parseSize('"@, "',sw);if(minW)w=Math.max(minW,w);"@) + clause(
        g.max_width,
        "var maxW=parseSize('"@,
        "',sw);if(maxW)w=Math.min(maxW,w);"@,
    ) + clause(g.min_height, "var minH=parseSize('"@, "',sh);if(minH)h=Math.max(minH,h);"@)
        + clause(g.max_height, "var maxH=parseSize('"@, "',sh);if(maxH)h=Math.min(maxH,h);"@)
}

pub open spec fn position(g: GeometryPolicy) -> Seq<char> {
    if g.center is Some {
        "var x=(sw-w)/2,y=(sh-h)/2;"@
    } else {
        "var x=c.frameGeometry.x,y=c.frameGeometry.y;"@
    }
}

/// The part of the activation procedure that moves and resizes the window.
pub open spec fn reshape_body(g: GeometryPolicy) -> Seq<char> {
    if reshapes(g) {
        "var scr=workspace.activeScreen,sw=scr.geometry.width,sh=scr.geometry.height,w=c.frameGeometry.width,h=c.frameGeometry.height;"@
            + base_size(g) + bounds(g) + position(g) + "c.frameGeometry={x:x,y:y,width:w,height:h};"@
    } else {
        seq![]
    }
}

/// The procedure that restores, reshapes and focuses a window.
pub open spec fn activation(g: GeometryPolicy) -> Seq<char> {
    "function setActiveClient(c){c.minimized=false;"@ + reshape_body(g)
        + "if(workspace.activeClient!==undefined)workspace.activeClient=c;else workspace.activeWindow=c;}"@
}

/// The statement that collects the matching windows into `m`.
pub open spec fn match_filter(sel: WindowSelection) -> Seq<char> {
    match sel {
        WindowSelection::ByClassExact(f) => "for(var i=0;i<cs.length;i++)if(cs[i].resourceClass=='"@
            + f@ + "')m.push(cs[i]);"@,
        WindowSelection::ByClassRegex(f) => "var re=new RegExp('"@ + f@
            + "');for(var i=0;i<cs.length;i++)if(re.exec(cs[i].resourceClass))m.push(cs[i]);"@,
        WindowSelection::ByTitleRegex(f) => "var re=new RegExp('"@ + f@
            + "','i');for(var i=0;i<cs.length;i++)if(re.exec(cs[i].caption))m.push(cs[i]);"@,
        WindowSelection::Focused => seq![],
    }
}

pub open spec fn single_match_text() -> Seq<char> {
    "if(m.length===1){var c=m[0];if(aw!==c)setActiveClient(c);"@
}

pub open spec fn minimize_text() -> Seq<char> {
    "else c.minimized=!c.minimized;"@
}

pub open spec fn topmost_text() -> Seq<char> {
    "}else if(m.length>1){m.sort(function(a,b){return a.stackingOrder-b.stackingOrder;});setActiveClient(m[0]);}"@
}

/// The statements that pick the window and act on it.
pub open spec fn selection_logic(sel: WindowSelection, toggle: bool) -> Seq<char> {
    match sel {
        WindowSelection::Focused => "var aw=workspace.activeClient||workspace.activeWindow;if(aw)setActiveClient(aw);"@,
        _ => "var aw=workspace.activeClient||workspace.activeWindow;"@
            + "var cs=workspace.clientList?workspace.clientList():workspace.windowList();var m=[];"@
            + match_filter(sel) + single_match_text() + (if toggle {
            minimize_text()
        } else {
            seq![]
        }) + topmost_text(),
    }
}

/// The whole program for the window manager's script engine.
pub open spec fn script_text(sel: WindowSelection, g: GeometryPolicy, toggle: bool) -> Seq<char> {
    size_helper(g) + activation(g) + selection_logic(sel, toggle)
}

fn push_clause(out: &mut String, o: &Option<String>, pre: &str, post: &str)
    ensures
        final(out)@ == old(out)@ + clause(*o, pre@, post@),
{
    match o {
        Some(v) => {
            out.append(pre);
            out.append(v.as_str());
            out.append(post);
            assert(final(out)@ =~= old(out)@ + clause(*o, pre@, post@));
        },
        None => {
            assert(final(out)@ =~= old(out)@ + clause(*o, pre@, post@));
        },
    }
}

fn push_base_size(out: &mut String, g: &GeometryPolicy)
    ensures
        final(out)@ == old(out)@ + base_size(*g),
{
    match &g.scale_factor {
        Some(sf) => {
            out.append("var wsW=sw,wsH=sh;");
            push_clause(out, &g.max_aspect, "if((wsW/wsH)>", "){wsH=Math.min(wsW,wsH);wsW=wsH*");
            match &g.max_aspect {
                Some(ma) => {
                    out.append(ma.as_str());
                    out.append(";}");
                },
                None => {},
            }
            out.append("w=wsW*");
            out.append(sf.as_str());
            out.append(";h=wsH*");
            out.append(sf.as_str());
            out.append(";");
            assert(final(out)@ =~= old(out)@ + base_size(*g));
        },
        None => {
            push_clause(out, &g.width, "w=parseSize('", "',sw)||w;");
            push_clause(out, &g.height, "h=parseSize('", "',sh)||h;");
            assert(final(out)@ =~= old(out)@ + base_size(*g));
        },
    }
}

fn push_bounds(out: &mut String, g: &GeometryPolicy)
    ensures
        final(out)@ == old(out)@ + bounds(*g),
{
    push_clause(out, &g.min_width, "var minW=parseSize('", "',sw);if(minW)w=Math.max(minW,w);");
    push_clause(out, &g.max_width, "var maxW=parseSize('", "',sw);if(maxW)w=Math.min(maxW,w);");
    push_clause(out, &g.min_height, "var minH=parseSize('", "',sh);if(minH)h=Math.max(minH,h);");
    push_clause(out, &g.max_height, "var maxH=parseSize('", "',sh);if(maxH)h=Math.min(maxH,h);");
    assert(final(out)@ =~= old(out)@ + bounds(*g));
}

fn push_activation(out: &mut String, g: &GeometryPolicy, resize: bool)
    requires
        resize == needs_resize(*g),
    ensures
        final(out)@ == old(out)@ + activation(*g),
{
    out.append("function setActiveClient(c){c.minimized=false;");
    if resize || g.center.is_some() {
        out.append(
            "var scr=workspace.activeScreen,sw=scr.geometry.width,sh=scr.geometry.height,w=c.frameGeometry.width,h=c.frameGeometry.height;",
        );
        push_base_size(out, g);
        push_bounds(out, g);
        if g.center.is_some() {
            out.append("var x=(sw-w)/2,y=(sh-h)/2;");
        } else {
            out.append("var x=c.frameGeometry.x,y=c.frameGeometry.y;");
        }
        out.append("c.frameGeometry={x:x,y:y,width:w,height:h};");
    }
    out.append(
        "if(workspace.activeClient!==undefined)workspace.activeClient=c;else workspace.activeWindow=c;}",
    );
    assert(final(out)@ =~= old(out)@ + activation(*g));
}

fn push_selection(out: &mut String, sel: &WindowSelection, toggle: bool)
    ensures
        final(out)@ == old(out)@ + selection_logic(*sel, toggle),
{
    match sel {
        WindowSelection::Focused => {
            out.append(
                "var aw=workspace.activeClient||workspace.activeWindow;if(aw)setActiveClient(aw);",
            );
        },
        _ => {
            out.append("var aw=workspace.activeClient||workspace.activeWindow;");
            out.append(
                "var cs=workspace.clientList?workspace.clientList():workspace.windowList();var m=[];",
            );
            match sel {
                WindowSelection::ByClassExact(f) => {
                    out.append("for(var i=0;i<cs.length;i++)if(cs[i].resourceClass=='");
                    out.append(f.as_str());
                    out.append("')m.push(cs[i]);");
                },
                WindowSelection::ByClassRegex(f) => {
                    out.append("var re=new RegExp('");
                    out.append(f.as_str());
                    out.append(
                        "');for(var i=0;i<cs.length;i++)if(re.exec(cs[i].resourceClass))m.push(cs[i]);",
                    );
                },
                WindowSelection::ByTitleRegex(f) => {
                    out.append("var re=new RegExp('");
                    out.append(f.as_str());
                    out.append(
                        "','i');for(var i=0;i<cs.length;i++)if(re.exec(cs[i].caption))m.push(cs[i]);",
                    );
                },
                WindowSelection::Focused => {},
            }
            out.append("if(m.length===1){var c=m[0];if(aw!==c)setActiveClient(c);");
            if toggle {
                out.append("else c.minimized=!c.minimized;");
            }
            out.append(
                "}else if(m.length>1){m.sort(function(a,b){return a.stackingOrder-b.stackingOrder;});setActiveClient(m[0]);}",
            );
        },
    }
    assert(final(out)@ =~= old(out)@ + selection_logic(*sel, toggle));
}

/// The program that selects a window as `selection` says, shapes it as `geometry`
/// says, and focuses it; with `toggle`, a single match that already has the focus
/// is minimized instead. Only the parts that the policy uses are emitted.
pub fn build_script(selection: &WindowSelection, geometry: &GeometryPolicy, toggle: bool) -> (r: String)
    ensures
        r@ == script_text(*selection, *geometry, toggle),
{
    let g = geometry;
    let resize = g.width.is_some() || g.height.is_some() || g.scale_factor.is_some()
        || g.min_width.is_some() || g.max_width.is_some() || g.min_height.is_some()
        || g.max_height.is_some();
    let mut out = String::new();
    if resize {
        out.append(
            "function parseSize(v,s){if(v===null||v==='')return null;var t=String(v);if(t.endsWith('%'))return s*(parseFloat(t.slice(0,-1))/100);return parseFloat(t);}\n",
        );
    }
    assert(out@ =~= size_helper(*g));
    push_activation(&mut out, g, resize);
    push_selection(&mut out, selection, toggle);
    assert(out@ =~= script_text(*selection, *geometry, toggle));
    out
}

} // verus!

verus! {

/// With the toggle, a single match that already has the focus is minimized: the
/// branch that activates a single unfocused match gains an `else` that flips its
/// minimized state, and nothing else in the program changes.
pub proof fn lemma_toggle_minimizes_focused_match(sel: WindowSelection, g: GeometryPolicy)
    requires
        !(sel is Focused),
    ensures
        exists|head: Seq<char>|
            {
                &&& #[trigger] script_text(sel, g, true) == head + single_match_text() + minimize_text()
                    + topmost_text()
                &&& script_text(sel, g, false) == head + single_match_text() + topmost_text()
            },
{
    let head = size_helper(g) + activation(g)
        + "var aw=workspace.activeClient||workspace.activeWindow;"@
        + "var cs=workspace.clientList?workspace.clientList():workspace.windowList();var m=[];"@
        + match_filter(sel);
    assert(script_text(sel, g, true) =~= head + single_match_text() + minimize_text() + topmost_text());
    assert(script_text(sel, g, false) =~= head + single_match_text() + topmost_text());
}

/// Among several matches the program sorts by stacking order, lowest first, and
/// activates the first: whatever the toggle, the program ends with that branch.
pub proof fn lemma_several_matches_pick_lowest_stacking(sel: WindowSelection, g: GeometryPolicy, toggle: bool)
    requires
        !(sel is Focused),
    ensures
        script_text(sel, g, toggle).len() >= topmost_text().len(),
        script_text(sel, g, toggle).subrange(
            script_text(sel, g, toggle).len() - topmost_text().len(),
            script_text(sel, g, toggle).len() as int,
        ) == topmost_text(),
{
    let head = size_helper(g) + activation(g)
        + "var aw=workspace.activeClient||workspace.activeWindow;"@
        + "var cs=workspace.clientList?workspace.clientList():workspace.windowList();var m=[];"@
        + match_filter(sel) + single_match_text() + (if toggle {
        minimize_text()
    } else {
        seq![]
    });
    let s = script_text(sel, g, toggle);
    assert(s =~= head + topmost_text());
    assert(s.subrange(s.len() - topmost_text().len(), s.len() as int) =~= topmost_text());
}

/// With only an upper width bound among the sizes, the sizing statements are that
/// one bound on the width: the height is read and kept as it is.
pub proof fn lemma_max_width_only_bounds_width(g: GeometryPolicy)
    requires
        g.max_width is Some,
        g.scale_factor is None,
        g.width is None,
        g.height is None,
        g.min_width is None,
        g.min_height is None,
        g.max_height is None,
    ensures
        base_size(g) + bounds(g) == "var maxW=parseSize('"@ + g.max_width->Some_0@
            + "',sw);if(maxW)w=Math.min(maxW,w);"@,
        reshape_body(g) == "var scr=workspace.activeScreen,sw=scr.geometry.width,sh=scr.geometry.height,w=c.frameGeometry.width,h=c.frameGeometry.height;"@
            + base_size(g) + bounds(g) + position(g) + "c.frameGeometry={x:x,y:y,width:w,height:h};"@,
{
    assert(base_size(g) + bounds(g) =~= "var maxW=parseSize('"@ + g.max_width->Some_0@
        + "',sw);if(maxW)w=Math.min(maxW,w);"@);
}

} // verus!
