use panoramix::elements::{bubble_event_up, OptionOrUnit, ParentEvent};
use std::convert::TryFrom;

#[derive(Debug, Clone, PartialEq)]
struct Click;

#[derive(Debug, Clone, PartialEq)]
enum ParentEv {
    Clicked(Click),
    Other,
}

impl From<Click> for ParentEv {
    fn from(click: Click) -> Self {
        ParentEv::Clicked(click)
    }
}

impl TryFrom<ParentEv> for Click {
    type Error = ();
    fn try_from(parent: ParentEv) -> Result<Self, ()> {
        match parent {
            ParentEv::Clicked(click) => Ok(click),
            ParentEv::Other => Err(()),
        }
    }
}

#[test]
fn option_or_unit() {
    assert_eq!(OptionOrUnit::<u8>::to_option(Some(3_u8)), Some(3));
    assert_eq!(OptionOrUnit::<u8>::to_option(None::<u8>), None);
    assert_eq!(OptionOrUnit::<u8>::to_option(()), None);
}

#[test]
fn parent_event_round_trip() {
    let parent: ParentEv = ParentEvent::<Click>::from_child_event(Click);
    assert_eq!(parent, ParentEv::Clicked(Click));
    assert_eq!(ParentEvent::<Click>::into_child_event(parent), Some(Click));
    assert_eq!(ParentEvent::<Click>::into_child_event(ParentEv::Other), None);
}

#[test]
fn bubbling_passes_events_on() {
    let mut state = 5_u32;
    assert_eq!(bubble_event_up(&mut state, Click), Some(Click));
    assert_eq!(state, 5);
}
