# asset_tracker

Verified logic of a BLE asset tracker made of tags that advertise, scanners
that listen for them, and a gateway that forwards what the scanners saw
together with its GNSS position.

`src/` is verified with Verus:

- `ad` – advertising-data structures, encoded and decoded by `trouble_host`;
- `advertiser` – the tag's payload, channel rotation and advertising data;
- `scan` – advertising reports and ages;
- `beacon` – iBeacon recognition and the store of beacons seen lately;
- `scanner` – tag recognition (address prefix, name, sequence number);
- `tag_store` – the scanner's store of tags, with eviction of the oldest;
- `sighting` – records posted by the all-in-one scanner, device identity and
  the configured address prefix;
- `packet` – reassembly of zero-terminated frames received over the UART;
- `gateway` – update scheduling, tag ageing, GNSS fix assembly, the update
  and the status resource;
- `battery` – the battery measurement registers;
- `collections` – declarations of the `heapless` map that the stores keep.

`app/` holds the serde copies of the library's types, the BLE event
handlers, the UART framing with postcard and the CoAP status resource.
Times in the library are microseconds.
