//! Topic management: two selectable lists, the topics on offer and the topics shown, and moving
//! entries between them.
use crate::input::{same_text, Action};
use vstd::prelude::*;

verus! {

/// A topic by name and message type.
#[derive(Clone, Debug)]
pub struct TopicEntry {
    pub name: String,
    pub datatype: String,
}

/// A topic as plain text: its name and its message type.
pub type TopicView = (Seq<char>, Seq<char>);

/// A topic's name and type as text.
pub open spec fn topic_view(e: TopicEntry) -> TopicView {
    (e.name@, e.datatype@)
}

/// Each topic's name and type as text.
pub open spec fn topics_view(s: Seq<TopicEntry>) -> Seq<TopicView> {
    s.map_values(|e: TopicEntry| topic_view(e))
}

/// The message types that can be shown.
pub open spec fn supported_type(t: Seq<char>) -> bool {
    t == "geometry_msgs/PoseArray"@ || t == "geometry_msgs/PoseStamped"@ || t == "nav_msgs/Path"@
        || t == "sensor_msgs/Image"@ || t == "sensor_msgs/LaserScan"@
        || t == "visualization_msgs/Marker"@ || t == "visualization_msgs/MarkerArray"@
}

/// Whether a message type can be shown.
pub fn is_supported_type(t: &str) -> (r: bool)
    ensures
        r == supported_type(t@),
{
    same_text(t, "geometry_msgs/PoseArray") || same_text(t, "geometry_msgs/PoseStamped")
        || same_text(t, "nav_msgs/Path") || same_text(t, "sensor_msgs/Image") || same_text(
        t,
        "sensor_msgs/LaserScan",
    ) || same_text(t, "visualization_msgs/Marker") || same_text(t, "visualization_msgs/MarkerArray")
}

/// The listener lists that a shown topic is saved into.
#[derive(Clone, Copy, Debug, PartialEq, Eq, Structural)]
pub enum TopicKind {
    Laser,
    MarkerArray,
    Marker,
    PoseStamped,
    PoseArray,
    Path,
    Image,
}

/// The list that a topic of message type `t` belongs to; `None` for a type that is not shown.
pub fn topic_kind(t: &str) -> (r: Option<TopicKind>)
    ensures
        r == (if t@ == "sensor_msgs/LaserScan"@ {
            Some(TopicKind::Laser)
        } else if t@ == "visualization_msgs/MarkerArray"@ {
            Some(TopicKind::MarkerArray)
        } else if t@ == "visualization_msgs/Marker"@ {
            Some(TopicKind::Marker)
        } else if t@ == "geometry_msgs/PoseStamped"@ {
            Some(TopicKind::PoseStamped)
        } else if t@ == "geometry_msgs/PoseArray"@ {
            Some(TopicKind::PoseArray)
        } else if t@ == "nav_msgs/Path"@ {
            Some(TopicKind::Path)
        } else if t@ == "sensor_msgs/Image"@ {
            Some(TopicKind::Image)
        } else {
            None
        }),
{
    if same_text(t, "sensor_msgs/LaserScan") {
        Some(TopicKind::Laser)
    } else if same_text(t, "visualization_msgs/MarkerArray") {
        Some(TopicKind::MarkerArray)
    } else if same_text(t, "visualization_msgs/Marker") {
        Some(TopicKind::Marker)
    } else if same_text(t, "geometry_msgs/PoseStamped") {
        Some(TopicKind::PoseStamped)
    } else if same_text(t, "geometry_msgs/PoseArray") {
        Some(TopicKind::PoseArray)
    } else if same_text(t, "nav_msgs/Path") {
        Some(TopicKind::Path)
    } else if same_text(t, "sensor_msgs/Image") {
        Some(TopicKind::Image)
    } else {
        None
    }
}

/// The topics of `all`, in order, that can be shown and are not already shown.
pub open spec fn offered(all: Seq<TopicView>, shown: Seq<TopicView>) -> Seq<TopicView>
    decreases all.len(),
{
    if all.len() == 0 {
        Seq::empty()
    } else {
        let rest = offered(all.drop_last(), shown);
        let t = all.last();
        if supported_type(t.1) && !shown.contains(t) {
            rest.push(t)
        } else {
            rest
        }
    }
}

fn is_shown(t: &TopicEntry, shown: &Vec<TopicEntry>) -> (r: bool)
    ensures
        r == topics_view(shown@).contains(topic_view(*t)),
{
    let ghost sv = topics_view(shown@);
    let mut i: usize = 0;
    while i < shown.len()
        invariant
            sv == topics_view(shown@),
            i <= shown@.len(),
            forall|j: int| 0 <= j < i ==> sv[j] != topic_view(*t),
        decreases shown@.len() - i,
    {
        if shown[i].name == t.name && shown[i].datatype == t.datatype {
            assert(sv[i as int] == topic_view(*t));
            return true;
        }
        i += 1;
    }
    false
}

/// The topics of `all` that can be shown and are not among `shown`, in the order of `all`.
pub fn available_topics(all: Vec<TopicEntry>, shown: &Vec<TopicEntry>) -> (r: Vec<TopicEntry>)
    ensures
        topics_view(r@) == offered(topics_view(all@), topics_view(shown@)),
{
    let ghost whole = topics_view(all@);
    let ghost sv = topics_view(shown@);
    let total = all.len();
    let mut rest = all;
    let mut out: Vec<TopicEntry> = Vec::new();
    let mut k: usize = 0;
    while rest.len() > 0
        invariant
            whole.len() == total,
            k <= total,
            topics_view(rest@) == whole.skip(k as int),
            topics_view(out@) == offered(whole.take(k as int), sv),
            sv == topics_view(shown@),
        decreases rest@.len(),
    {
        let ghost before = rest@;
        assert(topics_view(before).len() == before.len());
        assert(k < whole.len());
        let t = rest.remove(0);
        assert(topic_view(t) == whole[k as int]) by {
            assert(topics_view(before)[0] == topic_view(before[0]));
            assert(whole.skip(k as int)[0] == whole[k as int]);
        }
        assert(whole.take(k + 1).drop_last() =~= whole.take(k as int));
        assert(whole.take(k + 1).last() == whole[k as int]);
        let keep = is_supported_type(t.datatype.as_str()) && !is_shown(&t, shown);
        if keep {
            out.push(t);
            assert(topics_view(out@) =~= offered(whole.take(k as int), sv).push(whole[k as int]));
        }
        assert forall|j: int| 0 <= j < rest@.len() implies #[trigger] topics_view(rest@)[j]
            == whole.skip(k + 1)[j] by {
            assert(rest@[j] == before[j + 1]);
            assert(topics_view(before)[j + 1] == topic_view(before[j + 1]));
            assert(whole.skip(k as int)[j + 1] == whole[k + 1 + j]);
        }
        k += 1;
        assert(topics_view(rest@) =~= whole.skip(k as int));
    }
    assert(whole.take(k as int) =~= whole);
    out
}

/// A list with at most one selected entry.
pub struct SelectableTopics {
    pub items: Vec<TopicEntry>,
    pub state: Option<usize>,
}

/// The selection after moving down, wrapping from the last entry to the first.
pub open spec fn next_selection(sel: Option<usize>, len: nat) -> Option<usize> {
    match sel {
        Some(i) => if i + 1 >= len {
            Some(0)
        } else {
            Some((i + 1) as usize)
        },
        None => Some(0),
    }
}

/// The selection after moving up, wrapping from the first entry to the last.
pub open spec fn previous_selection(sel: Option<usize>, len: nat) -> Option<usize> {
    match sel {
        Some(i) => if i == 0 {
            if len > 0 {
                Some((len - 1) as usize)
            } else {
                Some(0)
            }
        } else {
            Some((i - 1) as usize)
        },
        None => Some(0),
    }
}

/// The position that `pop` takes: the selection held within the list, or the first entry.
pub open spec fn pop_position(sel: Option<usize>, len: nat) -> int {
    match sel {
        Some(i) => if i > len - 1 {
            len - 1
        } else {
            i as int
        },
        None => 0,
    }
}

impl SelectableTopics {
    /// A list with nothing selected.
    pub fn new(items: Vec<TopicEntry>) -> (r: SelectableTopics)
        ensures
            r.items@ == items@,
            r.state is None,
    {
        SelectableTopics { items, state: None }
    }

    /// Selects the next entry.
    pub fn next(&mut self)
        ensures
            final(self).items@ == old(self).items@,
            final(self).state == next_selection(old(self).state, old(self).items@.len()),
    {
        let i = match self.state {
            Some(i) => if i >= self.items.len() || i + 1 >= self.items.len() {
                0
            } else {
                i + 1
            },
            None => 0,
        };
        self.state = Some(i);
    }

    /// Selects the previous entry.
    pub fn previous(&mut self)
        ensures
            final(self).items@ == old(self).items@,
            final(self).state == previous_selection(old(self).state, old(self).items@.len()),
    {
        let i = match self.state {
            Some(i) => if i == 0 {
                if self.items.len() > 0 {
                    self.items.len() - 1
                } else {
                    0
                }
            } else {
                i - 1
            },
            None => 0,
        };
        self.state = Some(i);
    }

    /// Appends an entry.
    pub fn add(&mut self, element: TopicEntry)
        ensures
            final(self).items@ == old(self).items@.push(element),
            final(self).state == old(self).state,
    {
        self.items.push(element);
    }

    /// Takes out the selected entry (the last one if the selection lies beyond the list, the
    /// first if nothing is selected).
    pub fn pop(&mut self) -> (r: TopicEntry)
        requires
            old(self).items@.len() > 0,
        ensures
            r == old(self).items@[pop_position(old(self).state, old(self).items@.len())],
            final(self).items@ == old(self).items@.remove(
                pop_position(old(self).state, old(self).items@.len()),
            ),
            final(self).state == old(self).state,
    {
        let i = match self.state {
            Some(i) => if i > self.items.len() - 1 {
                self.items.len() - 1
            } else {
                i
            },
            None => 0,
        };
        self.items.remove(i)
    }
}

/// The topic manager's lists: topics on offer, topics shown, and which list has the cursor.
pub struct TopicManager {
    pub availible_topics: SelectableTopics,
    pub selected_topics: SelectableTopics,
    /// Whether the cursor is in the list on offer.
    pub selection_mode: bool,
}

impl TopicManager {
    /// The lists with the cursor on the first topic on offer.
    pub fn new(available: Vec<TopicEntry>, shown: Vec<TopicEntry>) -> (r: TopicManager)
        ensures
            r.availible_topics.items@ == available@,
            r.availible_topics.state == Some(0usize),
            r.selected_topics.items@ == shown@,
            r.selected_topics.state is None,
            r.selection_mode,
    {
        TopicManager {
            availible_topics: SelectableTopics { items: available, state: Some(0) },
            selected_topics: SelectableTopics::new(shown),
            selection_mode: true,
        }
    }

    /// Moves the selected topic on offer to the shown ones; nothing when none is on offer.
    pub fn shift_active_element_right(&mut self)
        ensures
            old(self).availible_topics.items@.len() == 0 ==> *final(self) == *old(self),
            old(self).availible_topics.items@.len() > 0 ==> {
                let p = pop_position(
                    old(self).availible_topics.state,
                    old(self).availible_topics.items@.len(),
                );
                &&& final(self).availible_topics.items@ == old(self).availible_topics.items@.remove(p)
                &&& final(self).selected_topics.items@ == old(self).selected_topics.items@.push(
                    old(self).availible_topics.items@[p],
                )
                &&& final(self).availible_topics.state == old(self).availible_topics.state
                &&& final(self).selected_topics.state == old(self).selected_topics.state
                &&& final(self).selection_mode == old(self).selection_mode
            },
    {
        if self.availible_topics.items.len() == 0 {
            return ;
        }
        let x = self.availible_topics.pop();
        self.selected_topics.add(x);
    }

    /// Moves the selected shown topic back to those on offer; nothing when none is shown.
    pub fn shift_active_element_left(&mut self)
        ensures
            old(self).selected_topics.items@.len() == 0 ==> *final(self) == *old(self),
            old(self).selected_topics.items@.len() > 0 ==> {
                let p = pop_position(
                    old(self).selected_topics.state,
                    old(self).selected_topics.items@.len(),
                );
                &&& final(self).selected_topics.items@ == old(self).selected_topics.items@.remove(p)
                &&& final(self).availible_topics.items@ == old(self).availible_topics.items@.push(
                    old(self).selected_topics.items@[p],
                )
                &&& final(self).availible_topics.state == old(self).availible_topics.state
                &&& final(self).selected_topics.state == old(self).selected_topics.state
                &&& final(self).selection_mode == old(self).selection_mode
            },
    {
        if self.selected_topics.items.len() == 0 {
            return ;
        }
        let x = self.selected_topics.pop();
        self.availible_topics.add(x);
    }

    /// Reacts to one action; returns whether the shown topics are to be saved.
    pub fn handle_input(&mut self, action: Action) -> (r: bool)
        ensures
            r == (action == Action::Confirm),
            action == Action::RotateRight && old(self).selection_mode ==> !final(self).selection_mode
                && final(self).selected_topics.state == Some(0usize)
                && final(self).availible_topics.state is None,
            action == Action::RotateLeft && !old(self).selection_mode ==> final(self).selection_mode
                && final(self).availible_topics.state == Some(0usize)
                && final(self).selected_topics.state is None,
            action == Action::Up && old(self).selection_mode ==> final(self).availible_topics.state
                == previous_selection(
                old(self).availible_topics.state,
                old(self).availible_topics.items@.len(),
            ),
            action == Action::Down && old(self).selection_mode ==> final(self).availible_topics.state
                == next_selection(
                old(self).availible_topics.state,
                old(self).availible_topics.items@.len(),
            ),
            action == Action::Up && !old(self).selection_mode ==> final(self).selected_topics.state
                == previous_selection(
                old(self).selected_topics.state,
                old(self).selected_topics.items@.len(),
            ),
            action == Action::Down && !old(self).selection_mode ==> final(self).selected_topics.state
                == next_selection(
                old(self).selected_topics.state,
                old(self).selected_topics.items@.len(),
            ),
    {
        if self.selection_mode {
            match action {
                Action::Up => self.availible_topics.previous(),
                Action::Down => self.availible_topics.next(),
                Action::Right => self.shift_active_element_right(),
                Action::RotateRight => {
                    self.selection_mode = false;
                    self.selected_topics.state = Some(0);
                    self.availible_topics.state = None;
                },
                _ => {},
            }
        } else {
            match action {
                Action::Up => self.selected_topics.previous(),
                Action::Down => self.selected_topics.next(),
                Action::Left => self.shift_active_element_left(),
                Action::RotateLeft => {
                    self.selection_mode = true;
                    self.availible_topics.state = Some(0);
                    self.selected_topics.state = None;
                },
                _ => {},
            }
        }
        action == Action::Confirm
    }
}

} // verus!
