use net_process::parse_connections;

#[test]
fn test_parse_connections() {
    let input = r#"
    Active Connections

    Proto  Local Address          Foreign Address        State           PID
    TCP    0.0.0.0:135            0.0.0.0:0              LISTENING       1192
    TCP    0.0.0.0:445            0.0.0.0:0              LISTENING       4
    TCP    0.0.0.0:5040           0.0.0.0:0              LISTENING       8812
    TCP    0.0.0.0:5357           0.0.0.0:0              LISTENING       4
    TCP    0.0.0.0:5432           0.0.0.0:0              LISTENING       7292
    TCP    0.0.0.0:8828           0.0.0.0:0              LISTENING       9564
    TCP    0.0.0.0:49664          0.0.0.0:0              LISTENING       660
    TCP    0.0.0.0:49665          0.0.0.0:0              LISTENING       972
    TCP    0.0.0.0:49666          0.0.0.0:0              LISTENING       844
    TCP    0.0.0.0:49667          0.0.0.0:0              LISTENING       1752
    TCP    0.0.0.0:49668          0.0.0.0:0              LISTENING       3720
    TCP    0.0.0.0:49669          0.0.0.0:0              LISTENING       4888
    TCP    0.0.0.0:49670          0.0.0.0:0              LISTENING       672
    TCP    0.0.0.0:57621          0.0.0.0:0              LISTENING       3604
    TCP    0.0.0.0:58002          0.0.0.0:0              LISTENING       3604
    TCP    127.0.0.1:6463         0.0.0.0:0              LISTENING       14488
    TCP    127.0.0.1:57784        127.0.0.1:65001        ESTABLISHED     5124
    TCP    127.0.0.1:57808        0.0.0.0:0              LISTENING       4136
    TCP    127.0.0.1:57808        127.0.0.1:57829        ESTABLISHED     4136
    TCP    127.0.0.1:57829        127.0.0.1:57808        ESTABLISHED     12884
    TCP    127.0.0.1:58024        127.0.0.1:58025        ESTABLISHED     9444
    TCP    127.0.0.1:58025        127.0.0.1:58024        ESTABLISHED     9444
    TCP    127.0.0.1:58026        127.0.0.1:58027        ESTABLISHED     14452
    TCP    127.0.0.1:58027        127.0.0.1:58026        ESTABLISHED     14452
    TCP    127.0.0.1:65001        0.0.0.0:0              LISTENING       5124
    TCP    127.0.0.1:65001        127.0.0.1:57784        ESTABLISHED     5124
    TCP    172.29.112.1:139       0.0.0.0:0              LISTENING       4
    TCP    192.168.56.1:139       0.0.0.0:0              LISTENING       4
    TCP    192.168.100.14:139     0.0.0.0:0              LISTENING       4
    TCP    192.168.100.14:57793   40.115.3.253:443       ESTABLISHED     5236
    TCP    192.168.100.14:58006   34.158.0.131:4070      ESTABLISHED     3604
    TCP    192.168.100.14:58803   34.36.232.77:443       ESTABLISHED     11884
    TCP    192.168.100.14:58805   34.36.232.77:443       ESTABLISHED     3604
    TCP    192.168.100.14:59060   192.99.44.195:443      ESTABLISHED     9444
    TCP    192.168.100.14:59062   34.111.115.192:443     ESTABLISHED     14584
    TCP    192.168.100.14:59075   162.159.134.234:443    ESTABLISHED     14584
    TCP    192.168.100.14:59132   34.107.243.93:443      ESTABLISHED     9444
    TCP    192.168.100.14:59212   216.58.215.110:443     ESTABLISHED     9444
    TCP    192.168.100.14:59220   185.225.248.13:443     ESTABLISHED     9444
    TCP    192.168.100.14:59239   35.186.227.140:443     TIME_WAIT       0
    TCP    192.168.100.14:59269   152.199.19.160:443     ESTABLISHED     15988
    TCP    192.168.100.14:59270   35.186.227.140:443     ESTABLISHED     9444
    TCP    192.168.100.14:59271   13.69.68.64:443        ESTABLISHED     15988
    TCP    192.168.100.14:59274   20.44.229.112:443      ESTABLISHED     11332
    TCP    192.168.100.14:59275   204.79.197.239:443     ESTABLISHED     13276
    TCP    [::]:135               [::]:0                 LISTENING       1192
    TCP    [::]:445               [::]:0                 LISTENING       4
    TCP    [::]:5357              [::]:0                 LISTENING       4
    TCP    [::]:5432              [::]:0                 LISTENING       7292
    TCP    [::]:8828              [::]:0                 LISTENING       9564
    TCP    [::]:49664             [::]:0                 LISTENING       660
    TCP    [::]:49665             [::]:0                 LISTENING       972
    TCP    [::]:49666             [::]:0                 LISTENING       844
    TCP    [::]:49667             [::]:0                 LISTENING       1752
    TCP    [::]:49668             [::]:0                 LISTENING       3720
    TCP    [::]:49669             [::]:0                 LISTENING       4888
    TCP    [::]:49670             [::]:0                 LISTENING       672
    TCP    [::1]:1420             [::]:0                 LISTENING       11524
    TCP    [::1]:1420             [::1]:58750            ESTABLISHED     11524
    TCP    [::1]:58750            [::1]:1420             ESTABLISHED     15716
    UDP    0.0.0.0:1900           *:*                                    3604
    UDP    0.0.0.0:1900           *:*                                    3604
    UDP    0.0.0.0:1900           *:*                                    3604
    UDP    0.0.0.0:3702           *:*                                    10680
    UDP    0.0.0.0:3702           *:*                                    10680
    UDP    0.0.0.0:5050           *:*                                    8812
    UDP    0.0.0.0:5353           *:*                                    3604
    UDP    0.0.0.0:5353           *:*                                    3604
    UDP    0.0.0.0:5353           *:*                                    3604
    UDP    0.0.0.0:5353           *:*                                    3604
    UDP    0.0.0.0:5353           *:*                                    3604
    UDP    0.0.0.0:5353           *:*                                    3604
    UDP    0.0.0.0:5353           *:*                                    2896
    UDP    0.0.0.0:5353           *:*                                    3604
    UDP    0.0.0.0:5353           *:*                                    3604
    UDP    0.0.0.0:5353           *:*                                    3604
    UDP    0.0.0.0:5355           *:*                                    2896
    UDP    0.0.0.0:50250          *:*                                    11884
    UDP    0.0.0.0:52296          *:*                                    11884
    UDP    0.0.0.0:54615          *:*                                    13276
    UDP    0.0.0.0:54868          *:*                                    5124
    UDP    0.0.0.0:57621          *:*                                    3604
    UDP    0.0.0.0:59269          *:*                                    11884
    UDP    0.0.0.0:61972          *:*                                    3604
    UDP    0.0.0.0:61973          *:*                                    3604
    UDP    0.0.0.0:61974          *:*                                    3604
    UDP    0.0.0.0:62015          *:*                                    11884
    UDP    0.0.0.0:63433          *:*                                    15988
    UDP    0.0.0.0:65004          *:*                                    10680
    UDP    127.0.0.1:1900         *:*                                    3920
    UDP    127.0.0.1:10020        *:*                                    4136
    UDP    127.0.0.1:57841        *:*                                    5008
    UDP    127.0.0.1:58331        *:*                                    3920
    UDP    127.0.0.1:64719        *:*                                    11480
    UDP    172.29.112.1:137       *:*                                    4
    UDP    172.29.112.1:138       *:*                                    4
    UDP    172.29.112.1:1900      *:*                                    3920
    UDP    172.29.112.1:2177      *:*                                    12060
    UDP    172.29.112.1:5353      *:*                                    5124
    UDP    172.29.112.1:54616     *:*                                    15768
    UDP    172.29.112.1:64724     *:*                                    3920
    UDP    192.168.56.1:137       *:*                                    4
    UDP    192.168.56.1:138       *:*                                    4
    UDP    192.168.56.1:1900      *:*                                    3920
    UDP    192.168.56.1:2177      *:*                                    12060
    UDP    192.168.56.1:5353      *:*                                    5124
    UDP    192.168.56.1:54617     *:*                                    15768
    UDP    192.168.56.1:64725     *:*                                    3920
    UDP    192.168.100.14:137     *:*                                    4
    UDP    192.168.100.14:138     *:*                                    4
    UDP    192.168.100.14:1900    *:*                                    3920
    UDP    192.168.100.14:2177    *:*                                    12060
    UDP    192.168.100.14:5353    *:*                                    5124
    UDP    192.168.100.14:54618   *:*                                    15768
    UDP    192.168.100.14:58330   *:*                                    3920
    UDP    [::]:3702              *:*                                    10680
    UDP    [::]:3702              *:*                                    10680
    UDP    [::]:5353              *:*                                    3604
    UDP    [::]:5353              *:*                                    3604
    UDP    [::]:5353              *:*                                    3604
    UDP    [::]:5353              *:*                                    3604
    UDP    [::]:5353              *:*                                    3604
    UDP    [::]:5353              *:*                                    2896
    UDP    [::]:5353              *:*                                    3604
    UDP    [::]:5355              *:*                                    2896
    UDP    [::]:54869             *:*                                    5124
    UDP    [::]:65005             *:*                                    10680
    UDP    [::1]:1900             *:*                                    3920
    UDP    [::1]:5353             *:*                                    5124
    UDP    [::1]:57848            *:*                                    7292
    UDP    [::1]:64723            *:*                                    3920
    UDP    [fe80::2eab:cf7c:88:b019%17]:1900  *:*                                    3920
    UDP    [fe80::2eab:cf7c:88:b019%17]:2177  *:*                                    12060
    UDP    [fe80::2eab:cf7c:88:b019%17]:64721  *:*                                    3920
    UDP    [fe80::d780:dafb:bd15:aba8%3]:1900  *:*                                    3920
    UDP    [fe80::d780:dafb:bd15:aba8%3]:2177  *:*                                    12060
    UDP    [fe80::d780:dafb:bd15:aba8%3]:64720  *:*                                    3920
    UDP    [fe80::f28d:4249:ac12:d039%16]:1900  *:*                                    3920
    UDP    [fe80::f28d:4249:ac12:d039%16]:2177  *:*                                    12060
    UDP    [fe80::f28d:4249:ac12:d039%16]:64722  *:*                                    3920"#;

    let connections = parse_connections(input);

    println!("Connections: {}", connections.len());

    for connection in connections {
        println!("{:?}", connection);
    }
}
