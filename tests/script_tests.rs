use ww::script::{build_script, CenterMode, GeometryPolicy, WindowSelection};

fn no_geometry() -> GeometryPolicy {
    GeometryPolicy {
        center: None,
        scale_factor: None,
        max_aspect: None,
        width: None,
        height: None,
        min_width: None,
        max_width: None,
        min_height: None,
        max_height: None,
    }
}

const ACTIVATE: &str = "function setActiveClient(c){c.minimized=false;if(workspace.activeClient!==undefined)workspace.activeClient=c;else workspace.activeWindow=c;}";
const HELPER: &str = "function parseSize(v,s){if(v===null||v==='')return null;var t=String(v);if(t.endsWith('%'))return s*(parseFloat(t.slice(0,-1))/100);return parseFloat(t);}\n";

#[test]
fn focused_window_without_geometry() {
    let s = build_script(&WindowSelection::Focused, &no_geometry(), false);
    let expected = format!(
        "{}var aw=workspace.activeClient||workspace.activeWindow;if(aw)setActiveClient(aw);",
        ACTIVATE
    );
    assert_eq!(s, expected);
}

#[test]
fn class_match_with_toggle_minimizes_focused_single_match() {
    let s = build_script(&WindowSelection::ByClassExact("firefox".to_string()), &no_geometry(), true);
    let expected = format!(
        "{}var aw=workspace.activeClient||workspace.activeWindow;var cs=workspace.clientList?workspace.clientList():workspace.windowList();var m=[];for(var i=0;i<cs.length;i++)if(cs[i].resourceClass=='firefox')m.push(cs[i]);if(m.length===1){{var c=m[0];if(aw!==c)setActiveClient(c);else c.minimized=!c.minimized;}}else if(m.length>1){{m.sort(function(a,b){{return a.stackingOrder-b.stackingOrder;}});setActiveClient(m[0]);}}",
        ACTIVATE
    );
    assert_eq!(s, expected);
}

#[test]
fn without_toggle_there_is_no_minimize_branch() {
    let s = build_script(&WindowSelection::ByClassExact("firefox".to_string()), &no_geometry(), false);
    assert!(!s.contains("c.minimized=!c.minimized"));
    assert!(s.contains("if(aw!==c)setActiveClient(c);}else if(m.length>1)"));
}

#[test]
fn several_matches_sort_by_stacking_order_ascending() {
    let s = build_script(&WindowSelection::ByClassRegex("^kon".to_string()), &no_geometry(), true);
    assert!(s.ends_with(
        "}else if(m.length>1){m.sort(function(a,b){return a.stackingOrder-b.stackingOrder;});setActiveClient(m[0]);}"
    ));
    assert!(s.contains("var re=new RegExp('^kon');for(var i=0;i<cs.length;i++)if(re.exec(cs[i].resourceClass))m.push(cs[i]);"));
}

#[test]
fn title_filter_ignores_case() {
    let s = build_script(&WindowSelection::ByTitleRegex("Mail".to_string()), &no_geometry(), false);
    assert!(s.contains("var re=new RegExp('Mail','i');for(var i=0;i<cs.length;i++)if(re.exec(cs[i].caption))m.push(cs[i]);"));
}

#[test]
fn size_helper_only_when_sizes_are_used() {
    let plain = build_script(&WindowSelection::Focused, &no_geometry(), false);
    assert!(!plain.contains("parseSize"));
    let mut g = no_geometry();
    g.width = Some("80%".to_string());
    let sized = build_script(&WindowSelection::Focused, &g, false);
    assert!(sized.starts_with(HELPER));
    assert!(sized.contains("w=parseSize('80%',sw)||w;"));
    assert!(!sized.contains("h=parseSize"));
}

#[test]
fn max_width_alone_bounds_only_the_width() {
    let mut g = no_geometry();
    g.max_width = Some("1200".to_string());
    let s = build_script(&WindowSelection::Focused, &g, false);
    let expected = format!(
        "{}function setActiveClient(c){{c.minimized=false;var scr=workspace.activeScreen,sw=scr.geometry.width,sh=scr.geometry.height,w=c.frameGeometry.width,h=c.frameGeometry.height;var maxW=parseSize('1200',sw);if(maxW)w=Math.min(maxW,w);var x=c.frameGeometry.x,y=c.frameGeometry.y;c.frameGeometry={{x:x,y:y,width:w,height:h}};if(workspace.activeClient!==undefined)workspace.activeClient=c;else workspace.activeWindow=c;}}var aw=workspace.activeClient||workspace.activeWindow;if(aw)setActiveClient(aw);",
        HELPER
    );
    assert_eq!(s, expected);
}

#[test]
fn scale_with_aspect_bound_clamps_before_scaling() {
    let mut g = no_geometry();
    g.scale_factor = Some("0.8".to_string());
    g.max_aspect = Some("2".to_string());
    g.center = Some(CenterMode::Always);
    let s = build_script(&WindowSelection::Focused, &g, false);
    assert!(s.contains("var wsW=sw,wsH=sh;if((wsW/wsH)>2){wsH=Math.min(wsW,wsH);wsW=wsH*2;}w=wsW*0.8;h=wsH*0.8;"));
    assert!(s.contains("var x=(sw-w)/2,y=(sh-h)/2;"));
}

#[test]
fn scale_overrides_explicit_sizes_but_not_bounds() {
    let mut g = no_geometry();
    g.scale_factor = Some("0.5".to_string());
    g.width = Some("300".to_string());
    g.min_height = Some("10%".to_string());
    let s = build_script(&WindowSelection::Focused, &g, false);
    assert!(s.contains("var wsW=sw,wsH=sh;w=wsW*0.5;h=wsH*0.5;var minH=parseSize('10%',sh);if(minH)h=Math.max(minH,h);"));
    assert!(!s.contains("'300'"));
}

#[test]
fn centering_alone_reads_geometry_without_the_helper() {
    let mut g = no_geometry();
    g.center = Some(CenterMode::InitialOnly);
    let s = build_script(&WindowSelection::Focused, &g, false);
    assert!(!s.contains("function parseSize"));
    assert!(s.contains("var x=(sw-w)/2,y=(sh-h)/2;c.frameGeometry={x:x,y:y,width:w,height:h};"));
}

#[test]
fn all_bounds_in_order() {
    let mut g = no_geometry();
    g.height = Some("600".to_string());
    g.min_width = Some("100".to_string());
    g.max_width = Some("90%".to_string());
    g.min_height = Some("50".to_string());
    g.max_height = Some("95%".to_string());
    let s = build_script(&WindowSelection::Focused, &g, false);
    assert!(s.contains("h=parseSize('600',sh)||h;var minW=parseSize('100',sw);if(minW)w=Math.max(minW,w);var maxW=parseSize('90%',sw);if(maxW)w=Math.min(maxW,w);var minH=parseSize('50',sh);if(minH)h=Math.max(minH,h);var maxH=parseSize('95%',sh);if(maxH)h=Math.min(maxH,h);"));
}
