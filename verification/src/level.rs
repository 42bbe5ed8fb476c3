use vstd::prelude::*;

verus! {

/// Marker for the level subsystem; its engine-side part spawns the imported
/// level, its logic decides which level the camera follows.
pub struct LevelPlugin;

/// The world-space placement of one loaded level.
pub struct LevelInfo {
    /// The level's numeric id.
    pub uid: i64,
    /// The level's stable authoring identifier.
    pub iid: String,
    /// World position of the level's lower-left corner.
    pub px: i64,
    pub py: i64,
    /// Pixel size of the level.
    pub px_wid: i64,
    pub px_hei: i64,
}

/// Which level is selected as the active one.
pub enum LevelSelection {
    Uid(i64),
    Iid(String),
}

/// The selection already refers to this level.
pub open spec fn selection_matches(sel: LevelSelection, lvl: LevelInfo) -> bool {
    match sel {
        LevelSelection::Uid(u) => u == lvl.uid,
        LevelSelection::Iid(s) => s@ == lvl.iid@,
    }
}

/// The point lies strictly inside the level's bounds.
pub open spec fn inside_level(lvl: LevelInfo, x: i64, y: i64) -> bool {
    lvl.px < x < lvl.px + lvl.px_wid && lvl.py < y < lvl.py + lvl.px_hei
}

/// The selection after scanning the levels in order: each level that holds
/// the player and is not already selected becomes the selection.
pub open spec fn selection_after(
    sel: LevelSelection,
    levels: Seq<LevelInfo>,
    x: i64,
    y: i64,
) -> LevelSelection
    decreases levels.len(),
{
    if levels.len() == 0 {
        sel
    } else {
        let s1 = if inside_level(levels[0], x, y) && !selection_matches(sel, levels[0]) {
            LevelSelection::Iid(levels[0].iid)
        } else {
            sel
        };
        selection_after(s1, levels.skip(1), x, y)
    }
}

/// Appending one level to the scan visits it last.
proof fn lemma_selection_after_snoc(
    sel: LevelSelection,
    levels: Seq<LevelInfo>,
    l: LevelInfo,
    x: i64,
    y: i64,
)
    ensures
        selection_after(sel, levels.push(l), x, y) == {
            let mid = selection_after(sel, levels, x, y);
            if inside_level(l, x, y) && !selection_matches(mid, l) {
                LevelSelection::Iid(l.iid)
            } else {
                mid
            }
        },
    decreases levels.len(),
{
    let full = levels.push(l);
    if levels.len() == 0 {
        assert(full[0] == l);
        assert(full.skip(1) =~= Seq::<LevelInfo>::empty());
        let s1 = if inside_level(l, x, y) && !selection_matches(sel, l) {
            LevelSelection::Iid(l.iid)
        } else {
            sel
        };
        assert(selection_after(sel, full, x, y) == selection_after(s1, full.skip(1), x, y));
        assert(selection_after(s1, full.skip(1), x, y) == s1);
        assert(selection_after(sel, levels, x, y) == sel);
    } else {
        assert(full[0] == levels[0]);
        assert(full.skip(1) =~= levels.skip(1).push(l));
        let s1 = if inside_level(levels[0], x, y) && !selection_matches(sel, levels[0]) {
            LevelSelection::Iid(levels[0].iid)
        } else {
            sel
        };
        lemma_selection_after_snoc(s1, levels.skip(1), l, x, y);
        assert(selection_after(sel, full, x, y) == selection_after(s1, full.skip(1), x, y));
        assert(selection_after(sel, levels, x, y) == selection_after(s1, levels.skip(1), x, y));
    }
}

/// Follow the player across levels: scan the loaded levels and select any
/// level that strictly contains the player's position and is not the
/// selection already.
#[verifier::loop_isolation(false)]
pub fn update_level_selection(
    selection: &mut LevelSelection,
    levels: &Vec<LevelInfo>,
    player_x: i64,
    player_y: i64,
)
    requires
        forall|i: int|
            0 <= i < levels@.len() ==> 0 <= (#[trigger] levels@[i]).px_wid && levels@[i].px
                + levels@[i].px_wid <= i64::MAX && 0 <= levels@[i].px_hei && levels@[i].py
                + levels@[i].px_hei <= i64::MAX,
    ensures
        *final(selection) == selection_after(*old(selection), levels@, player_x, player_y),
{
    let mut i: usize = 0;
    while i < levels.len()
        invariant
            0 <= i <= levels@.len(),
            *selection == selection_after(*old(selection), levels@.take(i as int), player_x, player_y),
        decreases levels@.len() - i,
    {
        let lvl = &levels[i];
        let inside = player_x > lvl.px && player_x < lvl.px + lvl.px_wid && player_y > lvl.py
            && player_y < lvl.py + lvl.px_hei;
        let already = match &*selection {
            LevelSelection::Uid(u) => *u == lvl.uid,
            LevelSelection::Iid(s) => *s == lvl.iid,
        };
        if inside && !already {
            *selection = LevelSelection::Iid(lvl.iid.clone());
        }
        proof {
            lemma_selection_after_snoc(
                *old(selection),
                levels@.take(i as int),
                levels@[i as int],
                player_x,
                player_y,
            );
            assert(levels@.take(i as int).push(levels@[i as int]) =~= levels@.take(i as int + 1));
        }
        i = i + 1;
    }
    proof {
        assert(levels@.take(levels@.len() as int) =~= levels@);
    }
}

} // verus!
