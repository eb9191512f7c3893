//! What the built-in services of the kernel say, and when: the topics they
//! subscribe to and the events they answer with.
use vstd::prelude::*;

use crate::kernel::Message;
use crate::SID;

verus! {

/// The camera service.
#[derive(Clone, Copy)]
pub struct Camera {}

/// The tensor service, which looks for faces in camera frames.
#[derive(Clone, Copy)]
pub struct Tensor {}

/// The display service.
#[derive(Clone, Copy)]
pub struct Display {}

/// The service that runs a WebAssembly app.
#[derive(Clone, Copy)]
pub struct Wasm {}

/// `msg` is the event `(topic, data)`.
pub open spec fn is_event(msg: Message, topic: Seq<char>, data: Seq<char>) -> bool {
    msg matches Message::Event(t, d) && t@ == topic && d@ == data
}

impl Camera {
    /// The camera answers every event with a frame on "/frames", and
    /// ignores anything else.
    pub fn react(msg: &Message) -> (r: Option<Message>)
        ensures
            match *msg {
                Message::Event(_, _) => r matches Some(m) && is_event(m, "/frames"@, "[A FRAME OF VIDEO]"@),
                _ => r is None,
            },
    {
        match msg {
            Message::Event(_, _) => Some(Message::Event("/frames".to_owned(), "[A FRAME OF VIDEO]".to_owned())),
            _ => None,
        }
    }
}

impl Tensor {
    /// The tensor service listens to camera frames.
    pub fn subscription(sid: SID) -> (m: Message)
        ensures
            m matches Message::Subscribe(s, topic) && s == sid && topic@ == "/frames"@,
    {
        Message::Subscribe(sid, "/frames".to_owned())
    }

    /// The tensor service answers every event with a face for the display,
    /// and ignores anything else.
    pub fn react(msg: &Message) -> (r: Option<Message>)
        ensures
            match *msg {
                Message::Event(_, _) => r matches Some(m) && is_event(m, "/display"@, "[Face->Display: here is a face]"@),
                _ => r is None,
            },
    {
        match msg {
            Message::Event(_, _) => Some(Message::Event("/display".to_owned(), "[Face->Display: here is a face]".to_owned())),
            _ => None,
        }
    }
}

impl Display {
    /// The display listens to "/display".
    pub fn subscription(sid: SID) -> (m: Message)
        ensures
            m matches Message::Subscribe(s, topic) && s == sid && topic@ == "/display"@,
    {
        Message::Subscribe(sid, "/display".to_owned())
    }

    /// The kind of scene object an event's data asks the display to show:
    /// 1, a cube, for "cube"; 2, a swirl of cubes, for anything else.
    pub fn scene_kind(data: &String) -> (kind: u32)
        ensures
            kind == (if data@ == "cube"@ { 1u32 } else { 2u32 }),
    {
        let cube = "cube".to_owned();
        if *data == cube {
            1
        } else {
            2
        }
    }
}

impl Wasm {
    /// The events a WebAssembly app sends through its first host function:
    /// a frame request to the camera, then a request to the display to show
    /// it.
    pub fn frame_request() -> (r: Vec<Message>)
        ensures
            r.len() == 2,
            is_event(r[0], "/camera"@, "WASM->Camera: Give me a Frame"@),
            is_event(r[1], "/display"@, "WASM->Display: Show Frame"@),
    {
        let mut r: Vec<Message> = Vec::new();
        r.push(Message::Event("/camera".to_owned(), "WASM->Camera: Give me a Frame".to_owned()));
        r.push(Message::Event("/display".to_owned(), "WASM->Display: Show Frame".to_owned()));
        r
    }

    /// The event a WebAssembly app sends through its second host function:
    /// a cube for the display.
    pub fn cube_request() -> (m: Message)
        ensures
            is_event(m, "/display"@, "cube"@),
    {
        Message::Event("/display".to_owned(), "cube".to_owned())
    }
}

} // verus!
