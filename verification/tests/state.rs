use mini_tcp::tcp::state::{Established, SynRecv};
use mini_tcp::tcp::{ReceiveSequenceSpace, SendSequenceSpace};

#[test]
fn test_transmute() {
    let sr = SynRecv {
        snd: SendSequenceSpace {
            up: true,
            wnd: 10,
            una: 20,
            nxt: 30,
            wl1: 40,
            wl2: 50,
            iss: 60,
        },
        rcv: ReceiveSequenceSpace {
            up: true,
            wnd: 70,
            nxt: 80,
            irs: 90,
        },
    };

    let tr: Established = sr.into_established();

    assert_eq!(tr.snd.up, true);
    assert_eq!(tr.snd.wnd, 10);
    assert_eq!(tr.snd.una, 20);
    assert_eq!(tr.snd.nxt, 30);
    assert_eq!(tr.snd.wl1, 40);
    assert_eq!(tr.snd.wl2, 50);
    assert_eq!(tr.snd.iss, 60);
}
