use lorawan::spans::RETIRED_NETID;
use lorawan::subnet::{DevAddr, NetClass, NetId, SubnetAddr};
use rand::Rng;

fn create_netid(netclass: u8, id: u32) -> NetId {
    NetId::from(((netclass as u32) << 21) | id)
}

fn mutate_array(item: NetId, src: &[NetId], pos: usize) -> [NetId; 4] {
    let mut dst = [NetId::from(0), NetId::from(0), NetId::from(0), NetId::from(0)];
    dst.clone_from_slice(src);
    dst[pos] = item;
    dst.clone()
}

fn exercise_subnet_list(devaddr: DevAddr, netid_list: &[NetId]) {
    let subnet_addr = SubnetAddr::from_devaddr(&devaddr, netid_list);
    let devaddr_2 = DevAddr::from_subnet(&subnet_addr.unwrap(), netid_list);
    assert_eq!(devaddr, devaddr_2.unwrap())
}

fn exercise_subnet(devaddr: DevAddr) {
    let netid = NetId::from(&devaddr);
    let netid_list: [NetId; 4] = [
        NetId::from(0xC00050),
        NetId::from(0xE00001),
        NetId::from(0xC00035),
        NetId::from(0x60002D),
    ];
    exercise_subnet_list(devaddr, &mutate_array(netid, &netid_list, 0));
    exercise_subnet_list(devaddr, &mutate_array(netid, &netid_list, 1));
    exercise_subnet_list(devaddr, &mutate_array(netid, &netid_list, 2));
    exercise_subnet_list(devaddr, &mutate_array(netid, &netid_list, 3));
}

fn random_subnet(devaddr: &DevAddr) {
    let mut rng = rand::thread_rng();
    let _netid: NetId = devaddr.into();
    let _netids = (0..10)
        .map(|_| {
            let id = rng.gen_range(0..65);
            let netclass = rng.gen_range(0..8);
            create_netid(netclass, id)
        })
        .collect::<Vec<NetId>>();
}

fn addr_bit_len(devaddr: &DevAddr) -> u32 {
    let netid: NetId = devaddr.into();
    let netclass = NetClass::from(&netid);
    netclass.addr_len()
}

fn exercise_devaddr(netid: u32, addr: u32, _id_len: u32, _addr_len: u32) {
    let devaddr = DevAddr::from_nwkaddr(&NetId::from(netid), addr);
    let netclass = NetClass::from(&devaddr.unwrap().net_id());
    assert!(*netclass <= 7);
    let copy: DevAddr = devaddr.unwrap();
    let netid_2 = &copy.net_id();
    assert_eq!(netid, **netid_2);
    exercise_subnet(devaddr.unwrap());
    random_subnet(&devaddr.unwrap());
}

fn exercise_netid(netclass: u32, id: u32, id_len: u32, addr_len: u32) {
    let netid = (netclass << 21) & id;
    exercise_devaddr(netid, 0, id_len, addr_len);
    exercise_devaddr(netid, 1, id_len, addr_len);
    exercise_devaddr(netid, 8, id_len, addr_len);
    exercise_devaddr(netid, 16, id_len, addr_len);
    exercise_devaddr(netid, 32, id_len, addr_len);
    exercise_devaddr(netid, 33, id_len, addr_len);
    exercise_devaddr(netid, 64, id_len, addr_len);
}

#[test]
fn test_exercise_devaddr() {
    exercise_netid(7, 2, 17, 7);
    exercise_netid(6, 2, 15, 10);
    exercise_netid(5, 2, 13, 13);
    exercise_netid(4, 2, 12, 15);
    exercise_netid(3, 2, 11, 17);
    exercise_netid(2, 2, 9, 20);
    exercise_netid(1, 2, 6, 24);
    exercise_netid(0, 2, 6, 25);
}

#[test]
fn test_exercise() {
    let dev_addr_01: DevAddr = 0xFC00D410.into();
    exercise_subnet(dev_addr_01)
}

#[allow(non_snake_case)]
#[test]
fn test_net_id() {
    let LegacyNetID: NetId = NetId::from(RETIRED_NETID);

    let NetID00: NetId = 0xE00001.into();
    let NetID01: NetId = 0xC00035.into();
    let NetID02: NetId = 0x60002D.into();
    let NetIDExt: NetId = 0xC00050.into();

    let DevAddr00: DevAddr = 0x90000000.into();
    let DevAddr01: DevAddr = 0xFC00D410.into();
    let DevAddr02: DevAddr = 0xE05A0008.into();

    let NetWidth0 = NetID00.netid_class().addr_len();
    assert_eq!(7, NetWidth0);
    let NetWidth1 = NetID01.netid_class().addr_len();
    assert_eq!(10, NetWidth1);
    let NetWidth2 = NetID02.netid_class().addr_len();
    assert_eq!(17, NetWidth2);
    let NetSize0 = NetID00.size();
    assert_eq!(128, NetSize0);
    let NetSize1 = NetID01.size();
    assert_eq!(1024, NetSize1);
    let NetSize2 = NetID02.size();
    assert_eq!(131072, NetSize2);

    let NetIDList: Vec<NetId> = vec![NetID00, NetID01, NetID02];
    assert!(NetID01.is_local(&NetIDList));
    assert!(!NetIDExt.is_local(&NetIDList));
    assert!(LegacyNetID.is_local(&NetIDList));

    let DevAddrLegacy = DevAddr::from_nwkaddr(&LegacyNetID, 0).expect("dev_addr");
    assert_eq!(DevAddr00, DevAddrLegacy);
    let DevAddr1 = DevAddr::from_nwkaddr(&NetID01, 16).expect("dev_addr");
    assert_eq!(DevAddr01, DevAddr1);
    let DevAddr2 = DevAddr::from_nwkaddr(&NetID02, 8).expect("dev_addr");
    assert_eq!(DevAddr02, DevAddr2);

    let NetIDType00 = DevAddr00.net_class();
    assert_eq!(1, *NetIDType00);
    let NetIDType01 = DevAddr01.net_class();
    assert_eq!(6, *NetIDType01);
    let NetIDType02 = DevAddr02.net_class();
    assert_eq!(3, *NetIDType02);

    let NetIDType0 = DevAddrLegacy.net_class();
    assert_eq!(1, *NetIDType0);
    let NetIDType1 = DevAddr1.net_class();
    assert_eq!(6, *NetIDType1);
    let NetIDType2 = DevAddr2.net_class();
    assert_eq!(3, *NetIDType2);

    let NetIDType0 = DevAddrLegacy.net_class();
    assert_eq!(1, *NetIDType0);
    let NetIDType1 = DevAddr1.net_class();
    assert_eq!(6, *NetIDType1);
    let NetIDType2 = DevAddr2.net_class();
    assert_eq!(3, *NetIDType2);

    let NetID_0: NetId = DevAddr00.into();
    assert_eq!(NetID_0, LegacyNetID);
    let NetID_1: NetId = DevAddr01.into();
    assert_eq!(NetID_1, NetID01);
    let NetID_2: NetId = DevAddr02.into();
    assert_eq!(NetID_2, NetID02);

    let NetID0: NetId = DevAddrLegacy.into();
    assert_eq!(NetID0, LegacyNetID);
    let NetID1: NetId = DevAddr1.into();
    assert_eq!(NetID1, NetID01);
    let NetID2: NetId = DevAddr2.into();
    assert_eq!(NetID2, NetID02);

    let Width_0 = addr_bit_len(&DevAddr00);
    assert_eq!(24, Width_0);
    let Width_1 = addr_bit_len(&DevAddr01);
    assert_eq!(10, Width_1);
    let Width_2 = addr_bit_len(&DevAddr02);
    assert_eq!(17, Width_2);

    let Width0 = addr_bit_len(&DevAddrLegacy);
    assert_eq!(24, Width0);
    let Width1 = addr_bit_len(&DevAddr1);
    assert_eq!(10, Width1);
    let Width2 = addr_bit_len(&DevAddr2);
    assert_eq!(17, Width2);

    let NwkAddr0 = DevAddr00.nwk_addr();
    assert_eq!(0, NwkAddr0);
    let NwkAddr1 = DevAddr01.nwk_addr();
    assert_eq!(16, NwkAddr1);
    let NwkAddr2 = DevAddr02.nwk_addr();
    assert_eq!(8, NwkAddr2);

    // DevAddr00 carries the retired NetID: it is local, yet it has no subnet
    // address, and the DevAddr minted for subnet 0 carries a current NetID.
    let Subnet0 = SubnetAddr::from_devaddr(&DevAddr00, &NetIDList);
    assert_eq!(None, Subnet0);
    let SubnetZero: SubnetAddr = 0x0.into();
    let DevAddr000 = DevAddr::from_subnet(&SubnetZero, &NetIDList).expect("dev_addr");
    assert_ne!(DevAddr000, DevAddr00);
    let DevAddr000NetID = NetId::from(DevAddr000);
    assert_eq!(NetID00, DevAddr000NetID);

    let Subnet1 = SubnetAddr::from_devaddr(&DevAddr01, &NetIDList).expect("subnet_addr");
    assert_eq!((1 << 7) + 16, *Subnet1);
    let DevAddr001 = DevAddr::from_subnet(&Subnet1, &NetIDList).expect("dev_addr");
    assert_eq!(DevAddr001, DevAddr01);

    let Subnet1 = SubnetAddr::from_devaddr(&DevAddr01, &NetIDList).expect("subnet_addr");
    assert_eq!((1 << 7) + 16, *Subnet1);
    let DevAddr001 = DevAddr::from_subnet(&Subnet1, &NetIDList).expect("dev_addr");
    assert_eq!(DevAddr001, DevAddr01);

    let Subnet2 = SubnetAddr::from_devaddr(&DevAddr02, &NetIDList).expect("subnet_addr");
    assert_eq!((1 << 7) + (1 << 10) + 8, *Subnet2);
    let DevAddr002 = DevAddr::from_subnet(&Subnet2, &NetIDList).expect("subnet_addr");
    assert_eq!(DevAddr002, DevAddr02);
}

#[test]
fn test_id() {
    // <<91, 255, 255, 255>>: 45, class 0
    assert_eq!(NetId::from(0x00002D), DevAddr::from(0x5BFFFFFF).net_id());
    // <<173, 255, 255, 255>>: 45, class 1
    assert_eq!(NetId::from(0x20002D), DevAddr::from(0xADFFFFFF).net_id());
    // <<214, 223, 255, 255>>: 365, class 2
    assert_eq!(NetId::from(0x40016D), DevAddr::from(0xD6DFFFFF).net_id());
    // <<235, 111, 255, 255>>: 1463, class 3
    assert_eq!(NetId::from(0x6005B7), DevAddr::from(0xEB6FFFFF).net_id());
    // <<245, 182, 255, 255>>: 2925, class 4
    assert_eq!(NetId::from(0x800B6D), DevAddr::from(0xF5B6FFFF).net_id());
    // <<250, 219, 127, 255>>: 5851, class 5
    assert_eq!(NetId::from(0xA016DB), DevAddr::from(0xFADB7FFF).net_id());
    // <<253, 109, 183, 255>>: 23405, class 6
    assert_eq!(NetId::from(0xC05B6D), DevAddr::from(0xFD6DB7FF).net_id());
    // <<254, 182, 219, 127>>: 93622, class 7
    assert_eq!(NetId::from(0xE16DB6), DevAddr::from(0xFEB6DB7F).net_id());
    println!(
        "left: {:#04X?} right: {:#04X?}",
        NetId::from(0xA016DB),
        NetId::from(0xFFFFFFFF)
    );
    // Eight leading set bits read as class 0.
    assert_eq!(NetId::from(127), DevAddr::from(0xFFFFFFFF).net_id());

    assert_eq!(NetId::from(0), DevAddr::from(0).net_id());
    assert_eq!(NetId::from(1), DevAddr::from(1 << 25).net_id());
    assert_eq!(NetId::from(2), DevAddr::from(1 << 26).net_id());

    assert_eq!(NetId::from(0x600004), DevAddr::from(0xE009ABCD).net_id());
    assert_eq!(NetId::from(0x20002D), DevAddr::from(0xADFFFFFF).net_id());
    assert_eq!(NetId::from(0), DevAddr::from(46377).net_id());

    assert_eq!(NetId::from(0x600002), DevAddr::from(0xE0040001).net_id());
    assert_eq!(NetId::from(0x600002), DevAddr::from(0xE0052784).net_id());
    assert_eq!(NetId::from(0x000002), DevAddr::from(0x0410BEA3).net_id());
}
