use runslate::utils::dyer::{Colors, Dye};
use runslate::utils::file::fmt_size;

fn shown(size: u64) -> String {
    let (number, unit) = fmt_size(size);
    format!("{}{}", number, unit)
}

#[test]
fn bytes_are_written_without_a_decimal() {
    assert_eq!(shown(0), "0B");
    assert_eq!(shown(1), "1B");
    assert_eq!(shown(233), "233B");
    assert_eq!(shown(999), "999B");
}

#[test]
fn a_thousand_of_a_unit_moves_to_the_next() {
    assert_eq!(shown(1000), "1.0KB");
    assert_eq!(shown(1023), "1.0KB");
    assert_eq!(shown(1_023_999), "1000.0KB");
    assert_eq!(shown(1_024_000), "1.0MB");
    assert_eq!(shown(1_048_575_999), "1000.0MB");
    assert_eq!(shown(1_048_576_000), "1.0GB");
}

#[test]
fn sizes_are_rounded_to_the_nearest_tenth() {
    assert_eq!(shown(1075), "1.0KB");
    assert_eq!(shown(1076), "1.1KB");
    assert_eq!(shown(1124), "1.1KB");
    assert_eq!(shown(1536), "1.5KB");
    assert_eq!(shown(53_687_091), "51.2MB");
    assert_eq!(shown(123_456_789), "117.7MB");
    assert_eq!(shown(161_061_273), "153.6MB");
    assert_eq!(shown(10_804_527_104), "10.1GB");
    assert_eq!(shown(11_341_398_016), "10.6GB");
}

#[test]
fn a_size_half_way_between_two_tenths_goes_to_the_even_one() {
    assert_eq!(shown(1280), "1.2KB");
    assert_eq!(shown(1792), "1.8KB");
    assert_eq!(shown(1_310_720), "1.2MB");
    assert_eq!(shown(1_342_177_280), "1.2GB");
}

#[test]
fn gigabytes_are_the_largest_unit() {
    assert_eq!(shown(1 << 20), "1.0MB");
    assert_eq!(shown(1 << 24), "16.0MB");
    assert_eq!(shown(1 << 32), "4.0GB");
    assert_eq!(shown(1 << 42), "4096.0GB");
    assert_eq!(shown(u64::MAX), "17179869184.0GB");
}

#[test]
fn sizes_beyond_what_a_double_holds_are_rounded_as_a_double_is() {
    assert_eq!(shown(9_007_199_254_740_993), "8388608.0GB");
    assert_eq!(shown(9_223_372_036_854_775_807), "8589934592.0GB");
    assert_eq!(shown(16_673_041_436_541_085_285), "15527979877.4GB");
    assert_eq!(shown(2_205_910_480_048_462_232), "2054414227.7GB");
    assert_eq!(shown(3_354_817_240_782_549_810), "3124417030.1GB");
}

#[test]
fn a_text_is_dyed_between_its_colour_and_the_reset() {
    assert_eq!("word".dye(Colors::Red), "\x1b[31mword\x1b[0m");
    assert_eq!(String::from("word").dye(Colors::BrightCyan), "\x1b[96mword\x1b[0m");
    assert_eq!("".dye(Colors::Blue), "\x1b[34m\x1b[0m");
}

#[test]
fn every_colour_has_its_own_escape_sequence() {
    let all = vec![
        (Colors::Black, "\x1b[30m"),
        (Colors::Red, "\x1b[31m"),
        (Colors::Green, "\x1b[32m"),
        (Colors::Yellow, "\x1b[33m"),
        (Colors::Blue, "\x1b[34m"),
        (Colors::Magenta, "\x1b[35m"),
        (Colors::Cyan, "\x1b[36m"),
        (Colors::White, "\x1b[37m"),
        (Colors::BrightBlack, "\x1b[90m"),
        (Colors::BrightRed, "\x1b[91m"),
        (Colors::BrightGreen, "\x1b[92m"),
        (Colors::BrightYellow, "\x1b[93m"),
        (Colors::BrightBlue, "\x1b[94m"),
        (Colors::BrightMagenta, "\x1b[95m"),
        (Colors::BrightCyan, "\x1b[96m"),
        (Colors::BrightWhite, "\x1b[97m"),
    ];
    for (color, escape) in all {
        assert_eq!(String::from(color), escape);
    }
}

#[test]
fn sizes_of_every_magnitude_are_written_as_a_double_would_be() {
    let cases: Vec<(u64, &str)> = vec![
        (0, "0B"),
        (1, "1B"),
        (2, "2B"),
        (4, "4B"),
        (5, "5B"),
        (6, "6B"),
        (8, "8B"),
        (9, "9B"),
        (13, "13B"),
        (16, "16B"),
        (23, "23B"),
        (29, "29B"),
        (30, "30B"),
        (53, "53B"),
        (55, "55B"),
        (61, "61B"),
        (126, "126B"),
        (141, "141B"),
        (217, "217B"),
        (253, "253B"),
        (255, "255B"),
        (256, "256B"),
        (257, "257B"),
        (357, "357B"),
        (358, "358B"),
        (359, "359B"),
        (423, "423B"),
        (457, "457B"),
        (459, "459B"),
        (460, "460B"),
        (461, "461B"),
        (562, "562B"),
        (563, "563B"),
        (564, "564B"),
        (579, "579B"),
        (664, "664B"),
        (665, "665B"),
        (666, "666B"),
        (767, "767B"),
        (768, "768B"),
        (769, "769B"),
        (812, "812B"),
        (869, "869B"),
        (870, "870B"),
        (871, "871B"),
        (970, "970B"),
        (971, "971B"),
        (972, "972B"),
        (973, "973B"),
        (999, "999B"),
        (1000, "1.0KB"),
        (1001, "1.0KB"),
        (1074, "1.0KB"),
        (1075, "1.0KB"),
        (1076, "1.1KB"),
        (1284, "1.3KB"),
        (1291, "1.3KB"),
        (1526, "1.5KB"),
        (2387, "2.3KB"),
        (3249, "3.2KB"),
        (3622, "3.5KB"),
        (3881, "3.8KB"),
        (4727, "4.6KB"),
        (4796, "4.7KB"),
        (8727, "8.5KB"),
        (15439, "15.1KB"),
        (15994, "15.6KB"),
        (18240, "17.8KB"),
        (18907, "18.5KB"),
        (18979, "18.5KB"),
        (27468, "26.8KB"),
        (28130, "27.5KB"),
        (70868, "69.2KB"),
        (80866, "79.0KB"),
        (94752, "92.5KB"),
        (102347, "99.9KB"),
        (102348, "99.9KB"),
        (102349, "100.0KB"),
        (108061, "105.5KB"),
        (146868, "143.4KB"),
        (149661, "146.2KB"),
        (262143, "256.0KB"),
        (262144, "256.0KB"),
        (262145, "256.0KB"),
        (357565, "349.2KB"),
        (367000, "358.4KB"),
        (367001, "358.4KB"),
        (367002, "358.4KB"),
        (393994, "384.8KB"),
        (408653, "399.1KB"),
        (427885, "417.9KB"),
        (471858, "460.8KB"),
        (471859, "460.8KB"),
        (471860, "460.8KB"),
        (499970, "488.3KB"),
        (526712, "514.4KB"),
        (576715, "563.2KB"),
        (576716, "563.2KB"),
        (576717, "563.2KB"),
        (598951, "584.9KB"),
        (609851, "595.6KB"),
        (681573, "665.6KB"),
        (681574, "665.6KB"),
        (681575, "665.6KB"),
        (780974, "762.7KB"),
        (786431, "768.0KB"),
        (786432, "768.0KB"),
        (786433, "768.0KB"),
        (891288, "870.4KB"),
        (891289, "870.4KB"),
        (891290, "870.4KB"),
        (996146, "972.8KB"),
        (996147, "972.8KB"),
        (996148, "972.8KB"),
        (1023947, "999.9KB"),
        (1023948, "999.9KB"),
        (1023949, "1000.0KB"),
        (1023999, "1000.0KB"),
        (1024000, "1.0MB"),
        (1024001, "1.0MB"),
        (1101003, "1.0MB"),
        (1101004, "1.0MB"),
        (1101005, "1.1MB"),
        (1339898, "1.3MB"),
        (2297406, "2.2MB"),
        (2986809, "2.8MB"),
        (3455413, "3.3MB"),
        (4734264, "4.5MB"),
        (8328453, "7.9MB"),
        (10385257, "9.9MB"),
        (14347616, "13.7MB"),
        (17841570, "17.0MB"),
        (21082059, "20.1MB"),
        (22830434, "21.8MB"),
        (31246012, "29.8MB"),
        (52158940, "49.7MB"),
        (60825377, "58.0MB"),
        (66686503, "63.6MB"),
        (78592782, "75.0MB"),
        (80468090, "76.7MB"),
        (87891151, "83.8MB"),
        (96511539, "92.0MB"),
        (97061525, "92.6MB"),
        (104805170, "99.9MB"),
        (104805171, "99.9MB"),
        (104805172, "100.0MB"),
        (123942204, "118.2MB"),
        (262096638, "250.0MB"),
        (268435455, "256.0MB"),
        (268435456, "256.0MB"),
        (268435457, "256.0MB"),
        (375269778, "357.9MB"),
        (375809637, "358.4MB"),
        (375809638, "358.4MB"),
        (375809639, "358.4MB"),
        (426479236, "406.7MB"),
        (483183819, "460.8MB"),
        (483183820, "460.8MB"),
        (483183821, "460.8MB"),
        (590558002, "563.2MB"),
        (590558003, "563.2MB"),
        (590558004, "563.2MB"),
        (644780074, "614.9MB"),
        (697932184, "665.6MB"),
        (697932185, "665.6MB"),
        (697932186, "665.6MB"),
        (805306367, "768.0MB"),
        (805306368, "768.0MB"),
        (805306369, "768.0MB"),
        (837335688, "798.5MB"),
        (912680549, "870.4MB"),
        (912680550, "870.4MB"),
        (912680551, "870.4MB"),
        (1020054731, "972.8MB"),
        (1020054732, "972.8MB"),
        (1020054733, "972.8MB"),
        (1048523570, "999.9MB"),
        (1048523571, "999.9MB"),
        (1048523572, "1000.0MB"),
        (1048575999, "1000.0MB"),
        (1048576000, "1.0GB"),
        (1048576001, "1.0GB"),
        (1127428914, "1.0GB"),
        (1127428915, "1.0GB"),
        (1127428916, "1.1GB"),
        (1127850896, "1.1GB"),
        (1233565527, "1.1GB"),
        (1475216845, "1.4GB"),
        (1795823848, "1.7GB"),
        (2126508550, "2.0GB"),
        (3132943648, "2.9GB"),
        (3758686919, "3.5GB"),
        (4209818936, "3.9GB"),
        (5531650568, "5.2GB"),
        (7164932560, "6.7GB"),
        (7546862847, "7.0GB"),
        (9097023248, "8.5GB"),
        (14984982402, "14.0GB"),
        (19139256170, "17.8GB"),
        (30233164951, "28.2GB"),
        (30717539669, "28.6GB"),
        (37643545246, "35.1GB"),
        (44297208268, "41.3GB"),
        (50230911119, "46.8GB"),
        (50852274430, "47.4GB"),
        (54000735218, "50.3GB"),
        (71571988762, "66.7GB"),
        (107320495307, "99.9GB"),
        (107320495308, "99.9GB"),
        (107320495309, "100.0GB"),
        (115429298263, "107.5GB"),
        (135696785357, "126.4GB"),
        (150086262486, "139.8GB"),
        (221533963035, "206.3GB"),
        (342315301686, "318.8GB"),
        (384288326185, "357.9GB"),
        (803419457547, "748.2GB"),
        (982782683557, "915.3GB"),
        (1073688136907, "999.9GB"),
        (1073688136908, "999.9GB"),
        (1073688136909, "1000.0GB"),
        (1269794749569, "1182.6GB"),
        (1498913933579, "1396.0GB"),
        (1527585231646, "1422.7GB"),
        (3124424190354, "2909.8GB"),
        (3149433356463, "2933.1GB"),
        (3835659002624, "3572.2GB"),
        (3901487266383, "3633.5GB"),
        (5058476042945, "4711.1GB"),
        (5373725849574, "5004.7GB"),
        (8272203919111, "7704.1GB"),
        (8684926795128, "8088.5GB"),
        (11704131975655, "10900.3GB"),
        (13998361915267, "13037.0GB"),
        (19271017394521, "17947.5GB"),
        (25976517718223, "24192.5GB"),
        (27162375350762, "25296.9GB"),
        (28262814052866, "26321.8GB"),
        (32256883509148, "30041.6GB"),
        (34939006714544, "32539.5GB"),
        (39103742089233, "36418.2GB"),
        (60592622424793, "56431.3GB"),
        (93429071790269, "87012.6GB"),
        (129905399291741, "120983.8GB"),
        (154875936511497, "144239.5GB"),
        (170343454776048, "158644.7GB"),
        (198832411810381, "185177.1GB"),
        (214172341794309, "199463.5GB"),
        (277667124404045, "258597.7GB"),
        (384336689392960, "357941.4GB"),
        (410601403763807, "382402.4GB"),
        (656064861980505, "611008.0GB"),
        (741424020686454, "690504.9GB"),
        (1130327816681920, "1052699.8GB"),
        (1269700835368133, "1182501.1GB"),
        (1871456772719743, "1742929.9GB"),
        (2407584371839983, "2242237.7GB"),
        (2869800795356433, "2672710.3GB"),
        (5492702116800237, "5115477.5GB"),
        (9007199254740991, "8388608.0GB"),
        (9007199254740992, "8388608.0GB"),
        (9007199254740993, "8388608.0GB"),
        (9007199254740994, "8388608.0GB"),
        (9007199254740995, "8388608.0GB"),
        (11798827570466548, "10988514.5GB"),
        (15478008538476845, "14415018.8GB"),
        (16452323430791781, "15322420.2GB"),
        (17117714631311126, "15942114.1GB"),
        (18014398509481986, "16777216.0GB"),
        (18014398509481990, "16777216.0GB"),
        (26653556330951387, "24823058.7GB"),
        (31380344893066127, "29225223.6GB"),
        (40299776054487459, "37532091.2GB"),
        (49040606061664403, "45672623.5GB"),
        (54939456686225704, "51166356.2GB"),
        (56798680755436036, "52897893.6GB"),
        (57367879857926563, "53428001.6GB"),
        (63369352636576677, "59017308.6GB"),
        (68590631067063441, "63880003.1GB"),
        (69394749118834732, "64628896.4GB"),
        (115419732611484939, "107493002.5GB"),
        (118035640074213469, "109929256.2GB"),
        (162136677685869050, "151001548.1GB"),
        (254004096199131402, "236559748.8GB"),
        (283811112791421309, "264319696.3GB"),
        (346295689754296725, "322512993.4GB"),
        (618679229205793919, "576189932.6GB"),
        (653457013271906760, "608579268.0GB"),
        (959012492385992503, "893149983.5GB"),
        (1415181778449435183, "1317990737.5GB"),
        (1735051693687808028, "1615892810.5GB"),
        (2127896686397396651, "1981758220.5GB"),
        (2188126855238357404, "2037851936.4GB"),
        (2925697779546679197, "2724768388.6GB"),
        (4373275378982703272, "4072930085.5GB"),
        (5555045036383438193, "5173538845.4GB"),
        (8812637091286742750, "8207407865.0GB"),
        (9003266459913416230, "8384945299.4GB"),
        (9223372036854776832, "8589934592.0GB"),
        (9223372036854776833, "8589934592.0GB"),
        (9223372036854778880, "8589934592.0GB"),
        (18037650586219576026, "16798871184.0GB"),
        (18446744073709550591, "17179869184.0GB"),
        (18446744073709550592, "17179869184.0GB"),
        (18446744073709551615, "17179869184.0GB"),
    ];
    for (size, expected) in cases {
        assert_eq!(shown(size), expected, "{}", size);
    }
}
