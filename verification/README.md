# obd_ii

OBD-II, SAE J1979 over ISO-TP: mode 01 parameters and mode 09 vehicle
information, asked at the functional address 0x7DF and answered from 0x7E8. A
Receive Location polls one, a Send Location answers one as the ECU.

The library under `src/` is verified with Verus:

- `pid`: a parameter, its request, its positive and negative responses, and
  its origin URI; `ceiling`: what one ISO-TP message carries
- `ecu`: what an ECU holds, how it answers, and the bitmaps that say so
- `exchange`: a poll, between the steps that the link takes
- `transport`: one end of an exchange and the targets that address it
- `loopback`: both ends on one machine, and the sessions that stand
- `text`, `error`: numbers and URIs as text, failures as sentences
- `laws`: what holds across them, such as that a round returns its payload

`app/` is the transport on its ISO-TP link, where the messages travel.
