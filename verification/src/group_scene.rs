//! Rooms, scenes, and the scenes that belong to each room.

use vstd::prelude::*;

verus! {

/// A room: a named group of lights.
#[derive(Clone, Debug, PartialEq, Eq)]
pub struct Group {
    /// The bridge's identifier of the room.
    pub id: String,
    /// The room's name.
    pub name: String,
}

/// A scene: a named preset, tied to one room or to none.
#[derive(Clone, Debug, PartialEq, Eq)]
pub struct Scene {
    /// The bridge's identifier of the scene.
    pub id: String,
    /// The scene's name.
    pub name: String,
    /// Identifier of the room that the scene belongs to, if it belongs to one.
    pub group: Option<String>,
}

/// A room as a mathematical value.
pub struct GroupView {
    pub id: Seq<char>,
    pub name: Seq<char>,
}

/// A scene as a mathematical value.
pub struct SceneView {
    pub id: Seq<char>,
    pub name: Seq<char>,
    pub group: Option<Seq<char>>,
}

impl View for Group {
    type V = GroupView;

    open spec fn view(&self) -> GroupView {
        GroupView { id: self.id@, name: self.name@ }
    }
}

impl View for Scene {
    type V = SceneView;

    open spec fn view(&self) -> SceneView {
        SceneView {
            id: self.id@,
            name: self.name@,
            group: match self.group {
                Some(id) => Some(id@),
                None => None,
            },
        }
    }
}

/// The scenes of `scenes` as mathematical values, in the same order.
pub open spec fn scene_views(scenes: Seq<Scene>) -> Seq<SceneView> {
    scenes.map_values(|scene: Scene| scene@)
}

/// `scene` belongs to the room whose identifier is `group_id`.
pub open spec fn belongs_to(scene: SceneView, group_id: Seq<char>) -> bool {
    scene.group == Some(group_id)
}

/// The scenes of `scenes` that belong to the room `group_id`, in the order
/// in which `scenes` holds them.
pub open spec fn scenes_of(scenes: Seq<SceneView>, group_id: Seq<char>) -> Seq<SceneView> {
    scenes.filter(|scene: SceneView| belongs_to(scene, group_id))
}

/// What a room is associated with: its scenes where it has any, and
/// nothing, rather than an empty list, where it has none.
pub open spec fn association(scenes: Seq<SceneView>, group_id: Seq<char>) -> Option<
    Seq<SceneView>,
> {
    if scenes_of(scenes, group_id).len() > 0 {
        Some(scenes_of(scenes, group_id))
    } else {
        None
    }
}

/// A room together with the scenes that belong to it.
#[derive(Clone, Debug, PartialEq, Eq)]
pub struct GroupScene<'a> {
    /// The room.
    pub group: Group,
    /// The room's scenes, borrowed from the list they were found in; `None`
    /// where the room has no scene.
    pub scenes: Option<Vec<&'a Scene>>,
}

/// A room with its scenes as a mathematical value.
pub struct GroupSceneView {
    pub group: GroupView,
    pub scenes: Option<Seq<SceneView>>,
}

impl<'a> View for GroupScene<'a> {
    type V = GroupSceneView;

    open spec fn view(&self) -> GroupSceneView {
        GroupSceneView {
            group: self.group@,
            scenes: match self.scenes {
                Some(found) => Some(found@.map_values(|scene: &Scene| scene@)),
                None => None,
            },
        }
    }
}

impl<'a> GroupScene<'a> {
    /// The room `group`, with no scene yet.
    pub fn new(group: Group) -> (room: Self)
        ensures
            room.group == group,
            room.scenes is None,
    {
        GroupScene { group, scenes: None }
    }

    /// The same room with the scenes of `scenes` that belong to it, in the
    /// order of `scenes`. What the room held before is replaced.
    pub fn add_scenes(self, scenes: &'a [Scene]) -> (room: Self)
        ensures
            room.group == self.group,
            room@.scenes == association(scene_views(scenes@), self@.group.id),
    {
        let mut found: Vec<&'a Scene> = Vec::new();
        let mut i: usize = 0;
        while i < scenes.len()
            invariant
                i <= scenes.len(),
                found@.map_values(|scene: &Scene| scene@) == scenes_of(
                    scene_views(scenes@.take(i as int)),
                    self@.group.id,
                ),
            decreases scenes.len() - i,
        {
            let scene = &scenes[i];
            let belongs = match &scene.group {
                Some(id) => *id == self.group.id,
                None => false,
            };
            proof {
                reveal(Seq::filter);
                assert(scene_views(scenes@.take(i + 1)).drop_last() == scene_views(
                    scenes@.take(i as int),
                ));
            }
            if belongs {
                found.push(scene);
            }
            i = i + 1;
        }
        assert(scenes@.take(scenes.len() as int) == scenes@);
        GroupScene { scenes: if found.len() > 0 { Some(found) } else { None }, group: self.group }
    }
}

/// The association of the room `group` over `scenes`.
pub open spec fn room_with_scenes(group: GroupView, scenes: Seq<SceneView>) -> GroupSceneView {
    GroupSceneView { group, scenes: association(scenes, group.id) }
}

/// The association of each room of `groups` over `scenes`, room by room in
/// the order of `groups`.
pub open spec fn associations(groups: Seq<GroupView>, scenes: Seq<SceneView>) -> Seq<
    GroupSceneView,
> {
    groups.map_values(|group: GroupView| room_with_scenes(group, scenes))
}

/// The rooms of `rooms` as mathematical values, in the same order.
pub open spec fn room_views(rooms: Seq<GroupScene<'_>>) -> Seq<GroupSceneView> {
    rooms.map_values(|room: GroupScene<'_>| room@)
}

/// The rooms of `groups` as mathematical values, in the same order.
pub open spec fn group_views(groups: Seq<Group>) -> Seq<GroupView> {
    groups.map_values(|group: Group| group@)
}

/// Associates each room of `groups` with its scenes among `scenes`. The
/// rooms come out in the order of `groups`, and each room's scenes in the
/// order of `scenes`.
pub fn associate<'a>(groups: Vec<Group>, scenes: &'a [Scene]) -> (rooms: Vec<GroupScene<'a>>)
    ensures
        room_views(rooms@) == associations(group_views(groups@), scene_views(scenes@)),
{
    let mut rooms: Vec<GroupScene<'a>> = Vec::new();
    for group in it: groups
        invariant
            it.seq() == groups@,
            rooms@.len() == it.index(),
            forall|j: int|
                0 <= j < rooms@.len() ==> (#[trigger] rooms@[j])@ == room_with_scenes(
                    groups@[j]@,
                    scene_views(scenes@),
                ),
    {
        let room = GroupScene::new(group).add_scenes(scenes);
        rooms.push(room);
    }
    rooms
}

/// The line that tells of one scene of a room.
pub open spec fn scene_line(scene: SceneView) -> Seq<char> {
    "\r > "@ + scene.name
}

/// The lines that tell of one room: its name followed by ` :`, then a line
/// for each of its scenes, or a single line that says it has none.
pub open spec fn room_lines(room: GroupSceneView) -> Seq<Seq<char>> {
    seq![room.group.name + " :"@] + match room.scenes {
        Some(scenes) => scenes.map_values(|scene: SceneView| scene_line(scene)),
        None => seq!["\r > No scene detected for this room"@],
    }
}

/// The lines that tell of all rooms, room after room.
pub open spec fn listing_lines(rooms: Seq<GroupSceneView>) -> Seq<Seq<char>> {
    rooms.map_values(|room: GroupSceneView| room_lines(room)).flatten()
}

/// The lines that tell of one room, appended to `lines`.
fn push_room_lines(lines: &mut Vec<String>, room: &GroupScene<'_>)
    ensures
        final(lines).deep_view() == old(lines).deep_view() + room_lines(room@),
{
    let mut title = room.group.name.clone();
    title.append(" :");
    lines.push(title);
    let ghost titled = lines.deep_view();
    match &room.scenes {
        Some(found) => {
            let ghost scenes = room@.scenes->Some_0;
            let mut j: usize = 0;
            while j < found.len()
                invariant
                    j <= found.len(),
                    room.scenes == Some(*found),
                    scenes == room@.scenes->Some_0,
                    lines.deep_view() == titled + scenes.take(j as int).map_values(
                        |scene: SceneView| scene_line(scene),
                    ),
                decreases found.len() - j,
            {
                let ghost drawn = lines.deep_view();
                let mut line = String::from_str("\r > ");
                line.append(found[j].name.as_str());
                lines.push(line);
                assert(lines.deep_view() == drawn.push(scene_line(scenes[j as int])));
                j = j + 1;
            }
        },
        None => {
            lines.push(String::from_str("\r > No scene detected for this room"));
        },
    }
}

/// The lines that tell of all rooms of `rooms`: for each room its name, then
/// its scenes or the remark that it has none.
pub fn listing(rooms: &[GroupScene<'_>]) -> (lines: Vec<String>)
    ensures
        lines.deep_view() == listing_lines(room_views(rooms@)),
{
    let mut lines: Vec<String> = Vec::new();
    let mut i: usize = 0;
    while i < rooms.len()
        invariant
            i <= rooms.len(),
            lines.deep_view() == listing_lines(room_views(rooms@.take(i as int))),
        decreases rooms.len() - i,
    {
        push_room_lines(&mut lines, &rooms[i]);
        proof {
            let told = room_views(rooms@.take(i as int)).map_values(
                |room: GroupSceneView| room_lines(room),
            );
            let now = room_views(rooms@.take(i + 1)).map_values(
                |room: GroupSceneView| room_lines(room),
            );
            assert(now == told.push(room_lines(rooms@[i as int]@)));
            told.lemma_flatten_push(room_lines(rooms@[i as int]@));
        }
        i = i + 1;
    }
    assert(rooms@.take(rooms.len() as int) == rooms@);
    lines
}

/// The scenes of `scenes` at the positions `order`, in the order of `order`.
pub open spec fn arranged(scenes: Seq<SceneView>, order: Seq<int>) -> Seq<SceneView> {
    order.map_values(|i: int| scenes[i])
}

/// The positions of `order` at which `scenes` holds a scene of the room
/// `group_id`, in the order of `order`.
pub open spec fn positions_of(scenes: Seq<SceneView>, order: Seq<int>, group_id: Seq<char>) -> Seq<
    int,
> {
    order.filter(|i: int| belongs_to(scenes[i], group_id))
}

/// The positions `0, 1, .., n - 1`.
pub open spec fn in_order(n: nat) -> Seq<int> {
    Seq::new(n, |i: int| i)
}

/// Each number of `order` is larger than the one before it.
pub open spec fn ascending(order: Seq<int>) -> bool {
    forall|a: int, b: int| 0 <= a < b < order.len() ==> order[a] < order[b]
}

/// A room has no scenes exactly when no scene names it, and is then
/// associated with `None`; a list that it is associated with is never empty.
pub proof fn lemma_none_means_no_scene(scenes: Seq<SceneView>, group_id: Seq<char>)
    ensures
        association(scenes, group_id) is None <==> forall|i: int|
            0 <= i < scenes.len() ==> !belongs_to(#[trigger] scenes[i], group_id),
        association(scenes, group_id) matches Some(found) ==> found.len() > 0,
{
    let belongs = |scene: SceneView| belongs_to(scene, group_id);
    let found = scenes.filter(belongs);
    if found.len() > 0 {
        scenes.lemma_filter_pred(belongs, 0);
        scenes.lemma_filter_contains_rev(belongs, found[0]);
    } else {
        assert forall|i: int| 0 <= i < scenes.len() implies !belongs_to(
            #[trigger] scenes[i],
            group_id,
        ) by {
            if belongs(scenes[i]) {
                scenes.lemma_filter_contains(belongs, i);
            }
        }
    }
}

/// The association is a function of the rooms and the scenes: two results
/// for the same rooms and the same scenes, in the same order, are equal.
pub proof fn lemma_same_input_same_output(
    groups: Seq<GroupView>,
    scenes: Seq<SceneView>,
    first: Seq<GroupSceneView>,
    second: Seq<GroupSceneView>,
)
    requires
        first == associations(groups, scenes),
        second == associations(groups, scenes),
    ensures
        first == second,
{
}

/// The rooms come out in the order in which they went in, each with its own
/// association.
pub proof fn lemma_rooms_keep_their_order(groups: Seq<GroupView>, scenes: Seq<SceneView>)
    ensures
        associations(groups, scenes).len() == groups.len(),
        forall|i: int|
            0 <= i < groups.len() ==> #[trigger] associations(groups, scenes)[i]
                == room_with_scenes(groups[i], scenes),
{
}

/// Where the scenes are handed in in another order, each room's scenes come
/// out in that order: the scenes found among `scenes` arranged by `order`
/// are the scenes of `scenes` at those positions of `order` that hold a
/// scene of the room, in the order of `order`.
pub proof fn lemma_scenes_follow_input_order(
    scenes: Seq<SceneView>,
    order: Seq<int>,
    group_id: Seq<char>,
)
    requires
        forall|k: int| 0 <= k < order.len() ==> 0 <= #[trigger] order[k] < scenes.len(),
    ensures
        scenes_of(arranged(scenes, order), group_id) == arranged(
            scenes,
            positions_of(scenes, order, group_id),
        ),
    decreases order.len(),
{
    reveal(Seq::filter);
    if order.len() > 0 {
        let front = order.drop_last();
        lemma_scenes_follow_input_order(scenes, front, group_id);
        assert(arranged(scenes, order).drop_last() == arranged(scenes, front));
    }
}

/// Filtering an ascending sequence leaves an ascending sequence of some of
/// its members.
proof fn lemma_filter_ascending(order: Seq<int>, keep: spec_fn(int) -> bool)
    requires
        ascending(order),
    ensures
        ascending(order.filter(keep)),
        forall|k: int|
            0 <= k < order.filter(keep).len() ==> order.contains(#[trigger] order.filter(keep)[k]),
    decreases order.len(),
{
    reveal(Seq::filter);
    if order.len() > 0 {
        let front = order.drop_last();
        lemma_filter_ascending(front, keep);
        let kept = front.filter(keep);
        assert forall|k: int| 0 <= k < kept.len() implies order.contains(#[trigger] kept[k])
            && kept[k] < order.last() by {
            let at: int = choose|at: int| 0 <= at < front.len() && front[at] == kept[k];
            assert(order[at] == kept[k]);
        }
        assert(order[order.len() - 1] == order.last());
    }
}

/// Each room's scenes come out in the order of the scene list: they are the
/// scenes at the ascending positions where the list holds a scene of the
/// room, and every such position is among them.
pub proof fn lemma_scenes_keep_their_order(scenes: Seq<SceneView>, group_id: Seq<char>)
    ensures
        ({
            let positions = positions_of(scenes, in_order(scenes.len()), group_id);
            &&& scenes_of(scenes, group_id) == arranged(scenes, positions)
            &&& ascending(positions)
            &&& forall|i: int|
                0 <= i < scenes.len() ==> (belongs_to(#[trigger] scenes[i], group_id)
                    <==> positions.contains(i))
        }),
{
    let all = in_order(scenes.len());
    let keep = |i: int| belongs_to(scenes[i], group_id);
    let positions = positions_of(scenes, all, group_id);
    assert(arranged(scenes, all) == scenes);
    lemma_scenes_follow_input_order(scenes, all, group_id);
    lemma_filter_ascending(all, keep);
    assert forall|i: int| 0 <= i < scenes.len() implies (belongs_to(
        #[trigger] scenes[i],
        group_id,
    ) <==> positions.contains(i)) by {
        if belongs_to(scenes[i], group_id) {
            all.lemma_filter_contains(keep, i);
        }
        if positions.contains(i) {
            let k: int = choose|k: int| 0 <= k < positions.len() && positions[k] == i;
            all.lemma_filter_pred(keep, k);
        }
    }
}

} // verus!
